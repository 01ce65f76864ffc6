//! The draw context and the resolution engine. A drawing call creates a
//! graph node whose slot holds the accumulated property record; the record is
//! resolved into mesh geometry when the drawing is finished or when a
//! dimension query needs the node's extent. Resolution of one node may
//! trigger resolution of another it depends on; a node found mid-resolution
//! is rejected as a re-entrant borrow rather than looping.

use vstd::prelude::*;
use crate::color::Color;
use crate::dimension;
use crate::dimension::Dimension;
use crate::geom::{
    Axis, Point3, point3_in_mesh_range, spec_extent, COORD_LIMIT, MESH_COORD_LIMIT,
};
use crate::graph::GeometryGraph;
use crate::mesh::{IndexRange, IntermediaryMesh, IntermediaryVertexDataRanges};
use crate::primitive::{
    Polygon, Primitive, Quad, apply_dimensions, fan_indices, spec_fan_len, spec_fan_value,
    spec_prim_dim_request, spec_prim_fill, spec_prim_points, spec_prim_self_contained,
    spec_prim_spatial,
};
use crate::spatial;
use crate::spatial::position_in_input_range;
use crate::theme;
use crate::theme::Theme;
use crate::vertices::{Indices, IndicesFromRange, Vertex, Vertices, VerticesFromRanges, spec_default_tex_coords};

verus! {

/// The failures a drawing operation can surface.
#[derive(Clone, Copy, Debug, PartialEq, Eq, Structural)]
pub enum DrawError {
    /// A dimension was queried for a node index that was never created.
    NodeNotFound,
    /// A dimension query reached a node that is already resolving on the
    /// same call stack: a re-entrant borrow of the shared scratch state.
    NestedResolve,
    /// A dimension dependency resolved to a node with no measurable
    /// geometry.
    DimensionUnavailable,
    /// A measured dependency dimension exceeds the accepted input bound.
    DimensionTooLarge,
    /// Composing transforms left the machine integer range.
    ArithmeticOverflow,
}

/// What a resolved drawing left behind: where its geometry sits in the
/// intermediary mesh, its fill color, and its untransformed extents.
#[derive(Clone, Copy, Debug)]
pub struct ResolvedDrawing {
    pub vertex_ranges: IntermediaryVertexDataRanges,
    pub index_range: IndexRange,
    pub min_index: usize,
    pub fill_color: Color,
    pub x_dim: i64,
    pub y_dim: i64,
    pub z_dim: i64,
}

/// The lifecycle of one graph node's drawing.
#[derive(Clone, Debug)]
pub enum DrawingState {
    /// The node carries no drawing (the root, or a grouping node).
    Vacant,
    /// The drawing is open: its property record accepts mutation.
    Pending(Primitive),
    /// The drawing is resolving right now; meeting it again on the same call
    /// stack is a re-entrant borrow.
    Resolving,
    /// The drawing's geometry is committed; the record is gone.
    Resolved(ResolvedDrawing),
}

/// The draw context: the geometry graph, the shared intermediary mesh, one
/// drawing slot per node, and the theme fixed at construction.
#[derive(Clone, Debug)]
pub struct Draw {
    pub graph: GeometryGraph,
    pub mesh: IntermediaryMesh,
    pub drawings: Vec<DrawingState>,
    pub theme: Theme,
}

/// The number of open (pending) drawings; the measure that bounds nested
/// resolution.
pub open spec fn spec_count_pending(s: Seq<DrawingState>) -> nat
    decreases s.len(),
{
    if s.len() == 0 {
        0
    } else {
        spec_count_pending(s.drop_last()) + if s.last() is Pending { 1nat } else { 0nat }
    }
}

/// How one update changes the pending count.
pub proof fn lemma_count_pending_update(s: Seq<DrawingState>, i: int, v: DrawingState)
    requires
        0 <= i < s.len(),
    ensures
        spec_count_pending(s.update(i, v))
            == spec_count_pending(s)
                - (if s[i] is Pending { 1int } else { 0int })
                + (if v is Pending { 1int } else { 0int }),
    decreases s.len(),
{
    let t = s.update(i, v);
    if i == s.len() - 1 {
        assert(t.drop_last() =~= s.drop_last());
    } else {
        assert(t.drop_last() =~= s.drop_last().update(i, v));
        lemma_count_pending_update(s.drop_last(), i, v);
    }
}

/// Appending a slot adds its pending flag to the count.
pub proof fn lemma_count_pending_push(s: Seq<DrawingState>, v: DrawingState)
    ensures
        spec_count_pending(s.push(v))
            == spec_count_pending(s) + (if v is Pending { 1int } else { 0int }),
{
    assert(s.push(v).drop_last() =~= s);
}

/// The recorded untransformed extent of a resolved drawing along an axis.
pub open spec fn spec_resolved_dim(res: ResolvedDrawing, axis: Axis) -> i64 {
    match axis {
        Axis::X => res.x_dim,
        Axis::Y => res.y_dim,
        Axis::Z => res.z_dim,
    }
}

/// A resolved record is consistent with the mesh: its ranges lie within the
/// stores, its indices point into its own vertex range, and its extents are
/// within the mesh coordinate bound.
pub open spec fn resolved_wf(res: ResolvedDrawing, mesh: IntermediaryMesh) -> bool {
    &&& res.vertex_ranges.points.wf()
    &&& res.vertex_ranges.colors.wf()
    &&& res.vertex_ranges.tex_coords.wf()
    &&& res.index_range.wf()
    &&& res.vertex_ranges.points.end <= mesh.points@.len()
    &&& res.vertex_ranges.colors.end <= mesh.colors@.len()
    &&& res.vertex_ranges.tex_coords.end <= mesh.tex_coords@.len()
    &&& res.index_range.end <= mesh.indices@.len()
    &&& res.min_index == res.vertex_ranges.points.start
    &&& forall|j: int| res.index_range.start <= j < res.index_range.end
        ==> res.min_index <= #[trigger] mesh.indices@[j]
            && (mesh.indices@[j] as int) < res.vertex_ranges.points.end
    &&& 0 <= res.x_dim <= 2 * (MESH_COORD_LIMIT as int)
    &&& 0 <= res.y_dim <= 2 * (MESH_COORD_LIMIT as int)
    &&& 0 <= res.z_dim <= 2 * (MESH_COORD_LIMIT as int)
}

/// The dimension target a request denotes in a given state: an absolute
/// value stands for itself; the length of another node reads that node's
/// resolved record.
pub open spec fn spec_dim_value(d: Draw, req: Option<Dimension>, axis: Axis) -> Option<i64> {
    match req {
        None => None,
        Some(Dimension::Absolute(v)) => Some(v),
        Some(Dimension::Of(m)) => {
            if (m as int) < d.drawings@.len() && d.drawings@[m as int] is Resolved {
                Some(spec_resolved_dim(d.drawings@[m as int]->Resolved_0, axis))
            } else {
                None
            }
        }
    }
}

/// Every node a request refers to is resolved in the given state.
pub open spec fn spec_dim_settled(d: Draw, req: Option<Dimension>) -> bool {
    req matches Some(Dimension::Of(m))
        ==> (m as int) < d.drawings@.len() && d.drawings@[m as int] is Resolved
}

/// A dimension target within the accepted input bound.
pub open spec fn spec_dim_ok(v: Option<i64>) -> bool {
    v matches Some(t) ==> 0 <= t <= COORD_LIMIT
}

/// A request whose evaluation is guaranteed to succeed in the given state:
/// unset, absolute, or naming a node that is already resolved with an extent
/// within the accepted input bound.
pub open spec fn spec_dim_ready(d: Draw, req: Option<Dimension>) -> bool {
    match req {
        None => true,
        Some(Dimension::Absolute(_)) => true,
        Some(Dimension::Of(m)) => {
            &&& (m as int) < d.drawings@.len()
            &&& d.drawings@[m as int] matches DrawingState::Resolved(res)
                && 0 <= spec_resolved_dim(res, Axis::X) <= COORD_LIMIT
                && 0 <= spec_resolved_dim(res, Axis::Y) <= COORD_LIMIT
                && 0 <= spec_resolved_dim(res, Axis::Z) <= COORD_LIMIT
        }
    }
}

/// Every dimension target of the record is guaranteed to evaluate in the
/// given state.
pub open spec fn spec_prim_ready(d: Draw, prim: Primitive) -> bool {
    &&& spec_dim_ready(d, spec_prim_dim_request(prim, Axis::X))
    &&& spec_dim_ready(d, spec_prim_dim_request(prim, Axis::Y))
    &&& spec_dim_ready(d, spec_prim_dim_request(prim, Axis::Z))
}

/// Readiness persists across engine frames: resolved records never change.
pub proof fn lemma_dim_ready_stable(a: Draw, b: Draw, req: Option<Dimension>)
    requires
        spec_dim_ready(a, req),
        b.drawings@.len() == a.drawings@.len(),
        forall|i: int| 0 <= i < a.drawings@.len() && (#[trigger] a.drawings@[i]) is Resolved
            ==> b.drawings@[i] == a.drawings@[i],
    ensures
        spec_dim_ready(b, req),
{
}

/// What resolving the record `prim`, begun in state `pre`, has left in state
/// `d`: the record's points under its dimension targets sit at the tail of
/// the mesh at the record's vertex range, a triangle fan over them sits at
/// its index range, the fill color follows the explicit-over-theme
/// precedence, and the recorded extents measure the committed points. The
/// record's own contribution is the last thing committed, so its ranges end
/// exactly at the final store lengths; and when every dimension target was
/// already settled in `pre` (nothing else had to resolve on the way), its
/// ranges begin exactly at `pre`'s store lengths — in particular, at zero
/// right after a `clear`.
pub open spec fn resolution_result(
    pre: Draw, d: Draw, prim: Primitive, res: ResolvedDrawing) -> bool {
    let mx = spec_dim_value(d, spec_prim_dim_request(prim, Axis::X), Axis::X);
    let my = spec_dim_value(d, spec_prim_dim_request(prim, Axis::Y), Axis::Y);
    let pts = spec_prim_points(prim, mx, my);
    let base = res.vertex_ranges.points.start as int;
    &&& spec_dim_settled(d, spec_prim_dim_request(prim, Axis::X))
    &&& spec_dim_settled(d, spec_prim_dim_request(prim, Axis::Y))
    &&& spec_dim_settled(d, spec_prim_dim_request(prim, Axis::Z))
    &&& spec_dim_ok(mx)
    &&& spec_dim_ok(my)
    &&& res.vertex_ranges.points.spec_len() == pts.len()
    &&& res.vertex_ranges.points.end == d.mesh.points@.len()
    &&& res.vertex_ranges.colors.end == d.mesh.colors@.len()
    &&& res.vertex_ranges.tex_coords.end == d.mesh.tex_coords@.len()
    &&& d.mesh.points@.subrange(base, res.vertex_ranges.points.end as int) == pts
    &&& res.vertex_ranges.colors.spec_len() == 0
    &&& res.vertex_ranges.tex_coords.spec_len() == 0
    &&& res.min_index == res.vertex_ranges.points.start
    &&& res.index_range.spec_len() == spec_fan_len(pts.len() as int)
    &&& res.index_range.end == d.mesh.indices@.len()
    &&& forall|j: int| 0 <= j < res.index_range.spec_len()
        ==> #[trigger] d.mesh.indices@[res.index_range.start + j] == spec_fan_value(base, j)
    &&& res.fill_color == spec_prim_fill(prim, d.theme)
    &&& res.x_dim == spec_extent(pts, Axis::X)
    &&& res.y_dim == spec_extent(pts, Axis::Y)
    &&& res.z_dim == spec_extent(pts, Axis::Z)
    &&& spec_prim_ready(pre, prim) ==> (
        res.vertex_ranges.points.start == pre.mesh.points@.len()
        && res.vertex_ranges.colors.start == pre.mesh.colors@.len()
        && res.vertex_ranges.tex_coords.start == pre.mesh.tex_coords@.len()
        && res.index_range.start == pre.mesh.indices@.len())
}

/// What any engine step may do to the state: the mesh only grows, the theme
/// and the graph's shape stay, resolved and vacant slots stay exactly as
/// they are, open drawings either keep their record untouched or become
/// resolved, and a node's spatial properties change only when its drawing
/// resolves.
pub open spec fn frame_preserved(a: Draw, b: Draw) -> bool {
    &&& b.theme == a.theme
    &&& a.mesh.extended_by(b.mesh)
    &&& b.drawings@.len() == a.drawings@.len()
    &&& b.graph.nodes@.len() == a.graph.nodes@.len()
    &&& forall|i: int| 0 <= i < a.graph.nodes@.len()
        ==> (#[trigger] b.graph.nodes@[i]).parent == a.graph.nodes@[i].parent
    &&& forall|i: int| 0 <= i < a.drawings@.len() && !((#[trigger] a.drawings@[i]) is Pending)
        ==> b.drawings@[i] == a.drawings@[i]
    &&& forall|i: int| 0 <= i < a.drawings@.len() && ((#[trigger] a.drawings@[i]) is Pending)
        ==> (b.drawings@[i] == a.drawings@[i] || b.drawings@[i] is Resolved)
    &&& forall|i: int| 0 <= i < a.graph.nodes@.len()
        ==> ((#[trigger] b.graph.nodes@[i]).spatial == a.graph.nodes@[i].spatial
            || (!(a.drawings@[i] is Resolved) && b.drawings@[i] is Resolved))
}

impl Draw {
    /// The graph, the mesh, every slot and every resolved record agree with
    /// one another.
    pub open spec fn wf(self) -> bool {
        &&& self.drawings@.len() >= 1
        &&& self.graph.wf()
        &&& self.mesh.wf()
        &&& self.drawings@.len() == self.graph.nodes@.len()
        &&& forall|i: int| 0 <= i < self.drawings@.len()
            ==> ((#[trigger] self.drawings@[i]) matches DrawingState::Resolved(res)
                ==> resolved_wf(res, self.mesh))
        &&& forall|i: int| 0 <= i < self.drawings@.len()
            ==> ((#[trigger] self.drawings@[i]) matches DrawingState::Pending(prim)
                ==> prim.wf())
    }

    /// Create a new draw context with the given theme. The graph holds only
    /// the root node; the mesh is empty.
    pub fn new(theme: Theme) -> (r: Draw)
        ensures
            r.wf(),
            r.drawings@.len() == 1,
            r.drawings@[0] is Vacant,
            r.mesh.points@.len() == 0,
            r.mesh.indices@.len() == 0,
            r.theme == theme,
            spec_count_pending(r.drawings@) == 0,
    {
        let graph = GeometryGraph::new();
        let mesh = IntermediaryMesh::new();
        let mut drawings: Vec<DrawingState> = Vec::new();
        drawings.push(DrawingState::Vacant);
        proof {
            lemma_count_pending_push(Seq::<DrawingState>::empty(), DrawingState::Vacant);
        }
        Draw { graph, mesh, drawings, theme }
    }

    /// Access to the inner theme.
    pub fn theme(&self) -> (r: Theme)
        ensures
            r == self.theme,
    {
        self.theme
    }

    /// Direct access to the intermediary mesh, for writing externally
    /// produced geometry (a tessellated path) into the shared scratch space.
    /// The caller is responsible for leaving the context consistent: only
    /// appends keep previously returned ranges valid.
    pub fn drawing_context(&mut self) -> (m: &mut IntermediaryMesh)
        ensures
            *m == old(self).mesh,
            *final(self) == (Draw { mesh: *final(m), ..*old(self) }),
    {
        &mut self.mesh
    }

    /// The recorded extent of a resolved record along `axis`.
    fn resolved_dim(res: &ResolvedDrawing, axis: Axis) -> (r: i64)
        ensures
            r == spec_resolved_dim(*res, axis),
    {
        match axis {
            Axis::X => res.x_dim,
            Axis::Y => res.y_dim,
            Axis::Z => res.z_dim,
        }
    }
}


/// Under the engine's frame discipline, a settled dimension request keeps
/// its value: resolved records never change.
pub proof fn lemma_dim_value_stable(a: Draw, b: Draw, req: Option<Dimension>, axis: Axis)
    requires
        spec_dim_settled(a, req),
        b.drawings@.len() == a.drawings@.len(),
        forall|i: int| 0 <= i < a.drawings@.len() && (#[trigger] a.drawings@[i]) is Resolved
            ==> b.drawings@[i] == a.drawings@[i],
    ensures
        spec_dim_settled(b, req),
        spec_dim_value(b, req, axis) == spec_dim_value(a, req, axis),
{
}

/// A step that only turns pending slots into resolved ones never increases
/// the pending count.
pub proof fn lemma_count_pending_le(a: Seq<DrawingState>, b: Seq<DrawingState>)
    requires
        a.len() == b.len(),
        forall|i: int| 0 <= i < a.len()
            ==> (#[trigger] b[i] == a[i] || (a[i] is Pending && !(b[i] is Pending))),
    ensures
        spec_count_pending(b) <= spec_count_pending(a),
    decreases a.len(),
{
    if a.len() > 0 {
        lemma_count_pending_le(a.drop_last(), b.drop_last());
    }
}

/// Every engine frame satisfies the hypothesis of
/// [`lemma_count_pending_le`].
pub proof fn lemma_frame_count_le(a: Draw, b: Draw)
    requires
        frame_preserved(a, b),
    ensures
        spec_count_pending(b.drawings@) <= spec_count_pending(a.drawings@),
{
    assert forall|i: int| 0 <= i < a.drawings@.len()
        implies (#[trigger] b.drawings@[i] == a.drawings@[i]
            || (a.drawings@[i] is Pending && !(b.drawings@[i] is Pending))) by {
        if a.drawings@[i] is Pending {
        } else {
        }
    }
    lemma_count_pending_le(a.drawings@, b.drawings@);
}

/// Frame preservation is reflexive.
pub proof fn lemma_frame_refl(a: Draw)
    ensures
        frame_preserved(a, a),
{
    crate::mesh::lemma_extended_by_refl(a.mesh);
}

/// Frame preservation composes.
pub proof fn lemma_frame_trans(a: Draw, b: Draw, c: Draw)
    requires
        a.drawings@.len() == a.graph.nodes@.len(),
        frame_preserved(a, b),
        frame_preserved(b, c),
    ensures
        frame_preserved(a, c),
{
    crate::mesh::lemma_extended_by_trans(a.mesh, b.mesh, c.mesh);
    assert(b.drawings@.len() == a.drawings@.len());
    assert(c.drawings@.len() == a.drawings@.len());
    assert forall|i: int| 0 <= i < a.graph.nodes@.len()
        implies ((#[trigger] c.graph.nodes@[i]).spatial == a.graph.nodes@[i].spatial
            || (!(a.drawings@[i] is Resolved) && c.drawings@[i] is Resolved)) by {
        if c.graph.nodes@[i].spatial != a.graph.nodes@[i].spatial {
            if b.graph.nodes@[i].spatial == a.graph.nodes@[i].spatial {
                assert(!(b.drawings@[i] is Resolved) && c.drawings@[i] is Resolved);
                assert(!(a.drawings@[i] is Resolved));
            } else {
                assert(!(a.drawings@[i] is Resolved) && b.drawings@[i] is Resolved);
                assert(c.drawings@[i] == b.drawings@[i]);
            }
        }
    }
}

/// Taking a pending record out for resolution and putting it back unchanged
/// preserves the frame around whatever nested work happened in between.
proof fn lemma_frame_resolve_err(pre: Draw, s0: Draw, s1: Draw, post: Draw, n: int)
    requires
        0 <= n < pre.drawings@.len(),
        pre.drawings@.len() == pre.graph.nodes@.len(),
        pre.drawings@[n] is Pending,
        s0.drawings@ == pre.drawings@.update(n, DrawingState::Resolving),
        s0.graph == pre.graph,
        s0.mesh == pre.mesh,
        s0.theme == pre.theme,
        frame_preserved(s0, s1),
        post.drawings@ == s1.drawings@.update(n, pre.drawings@[n]),
        post.graph == s1.graph,
        post.mesh == s1.mesh,
        post.theme == s1.theme,
    ensures
        frame_preserved(pre, post),
        post.drawings@[n] == pre.drawings@[n],
{
    crate::mesh::lemma_extended_by_trans(pre.mesh, s0.mesh, s1.mesh);
    crate::mesh::lemma_extended_by_refl(pre.mesh);
    assert forall|i: int| 0 <= i < pre.drawings@.len() && !((#[trigger] pre.drawings@[i]) is Pending)
        implies post.drawings@[i] == pre.drawings@[i] by {
        assert(s0.drawings@[i] == pre.drawings@[i]);
        assert(s1.drawings@[i] == s0.drawings@[i]);
    }
    assert forall|i: int| 0 <= i < pre.drawings@.len() && ((#[trigger] pre.drawings@[i]) is Pending)
        implies (post.drawings@[i] == pre.drawings@[i] || post.drawings@[i] is Resolved) by {
        if i != n {
            assert(s0.drawings@[i] == pre.drawings@[i]);
        }
    }
    assert forall|i: int| 0 <= i < pre.graph.nodes@.len()
        implies ((#[trigger] post.graph.nodes@[i]).spatial == pre.graph.nodes@[i].spatial
            || (!(pre.drawings@[i] is Resolved) && post.drawings@[i] is Resolved)) by {
        if post.graph.nodes@[i].spatial != pre.graph.nodes@[i].spatial {
            assert(s1.graph.nodes@[i].spatial != s0.graph.nodes@[i].spatial);
            assert(!(s0.drawings@[i] is Resolved) && s1.drawings@[i] is Resolved);
            assert(i != n);
            assert(!(pre.drawings@[i] is Resolved));
            assert(post.drawings@[i] is Resolved);
        }
    }
}

/// Committing the resolved geometry of the taken record closes the frame
/// from the state the record was taken in.
proof fn lemma_frame_resolve_ok(
    pre: Draw, s0: Draw, s1: Draw, post: Draw, n: int, res: ResolvedDrawing)
    requires
        0 <= n < pre.drawings@.len(),
        pre.drawings@.len() == pre.graph.nodes@.len(),
        s1.drawings@.len() == s1.graph.nodes@.len(),
        pre.drawings@[n] is Pending,
        s0.drawings@ == pre.drawings@.update(n, DrawingState::Resolving),
        s0.graph == pre.graph,
        s0.mesh == pre.mesh,
        s0.theme == pre.theme,
        frame_preserved(s0, s1),
        post.drawings@ == s1.drawings@.update(n, DrawingState::Resolved(res)),
        post.graph.nodes@ == s1.graph.nodes@.update(n, crate::graph::Node {
            parent: s1.graph.nodes@[n].parent,
            spatial: post.graph.nodes@[n].spatial,
        }),
        s1.mesh.extended_by(post.mesh),
        post.theme == s1.theme,
    ensures
        frame_preserved(pre, post),
{
    crate::mesh::lemma_extended_by_trans(pre.mesh, s0.mesh, s1.mesh);
    crate::mesh::lemma_extended_by_trans(pre.mesh, s1.mesh, post.mesh);
    assert(s0.drawings@.len() == pre.drawings@.len());
    assert(s1.drawings@.len() == pre.drawings@.len());
    assert(post.drawings@.len() == pre.drawings@.len());
    assert(post.drawings@[n] == DrawingState::Resolved(res));
    assert forall|i: int| 0 <= i < pre.drawings@.len() && !((#[trigger] pre.drawings@[i]) is Pending)
        implies post.drawings@[i] == pre.drawings@[i] by {
        assert(i != n);
        assert(s0.drawings@[i] == pre.drawings@[i]);
        assert(s1.drawings@[i] == s0.drawings@[i]);
    }
    assert forall|i: int| 0 <= i < pre.drawings@.len() && ((#[trigger] pre.drawings@[i]) is Pending)
        implies (post.drawings@[i] == pre.drawings@[i] || post.drawings@[i] is Resolved) by {
        if i != n {
            assert(s0.drawings@[i] == pre.drawings@[i]);
            assert(s1.drawings@[i] == s0.drawings@[i] || s1.drawings@[i] is Resolved);
            assert(post.drawings@[i] == s1.drawings@[i]);
        }
    }
    assert forall|i: int| 0 <= i < pre.graph.nodes@.len()
        implies (#[trigger] post.graph.nodes@[i]).parent == pre.graph.nodes@[i].parent by {
        if i != n {
            assert(post.graph.nodes@[i] == s1.graph.nodes@[i]);
        }
        assert(s1.graph.nodes@[i].parent == s0.graph.nodes@[i].parent);
    }
    assert forall|i: int| 0 <= i < pre.graph.nodes@.len()
        implies ((#[trigger] post.graph.nodes@[i]).spatial == pre.graph.nodes@[i].spatial
            || (!(pre.drawings@[i] is Resolved) && post.drawings@[i] is Resolved)) by {
        if i == n {
            assert(post.drawings@[i] is Resolved);
            assert(!(pre.drawings@[i] is Resolved));
        } else {
            assert(post.graph.nodes@[i] == s1.graph.nodes@[i]);
            assert(post.drawings@[i] == s1.drawings@[i]);
            if post.graph.nodes@[i].spatial != pre.graph.nodes@[i].spatial {
                assert(s1.graph.nodes@[i].spatial != s0.graph.nodes@[i].spatial);
                assert(!(s0.drawings@[i] is Resolved) && s1.drawings@[i] is Resolved);
                assert(s0.drawings@[i] == pre.drawings@[i]);
            }
        }
    }
}


/// The contract of an untransformed dimension query on node `n`: a node
/// never created is a lookup failure; a vacant node has no dimensions; a
/// node met mid-resolution is a re-entrant borrow; a resolved node answers
/// from its record without touching anything; an open node resolves first
/// and then answers from the record it committed.
pub open spec fn dimension_query_contract(
    pre: Draw, post: Draw, n: int, axis: Axis, r: Result<Option<i64>, DrawError>) -> bool {
    &&& (n >= pre.drawings@.len()
        ==> r == Err::<Option<i64>, DrawError>(DrawError::NodeNotFound) && post == pre)
    &&& (n < pre.drawings@.len() ==> match pre.drawings@[n] {
        DrawingState::Vacant =>
            r == Ok::<Option<i64>, DrawError>(None) && post == pre,
        DrawingState::Resolving =>
            r == Err::<Option<i64>, DrawError>(DrawError::NestedResolve) && post == pre,
        DrawingState::Resolved(res) =>
            r == Ok::<Option<i64>, DrawError>(Some(spec_resolved_dim(res, axis)))
                && post == pre,
        DrawingState::Pending(prim) => {
            &&& (r is Ok ==> (post.drawings@[n] matches DrawingState::Resolved(res)
                && resolution_result(pre, post, prim, res)
                && post.graph.nodes@[n].spatial == spec_prim_spatial(prim)
                && r == Ok::<Option<i64>, DrawError>(Some(spec_resolved_dim(res, axis)))))
            &&& (r is Err ==> post.drawings@[n] == pre.drawings@[n])
            &&& (spec_prim_self_contained(prim) ==> r is Ok)
            &&& (spec_prim_ready(pre, prim) ==> r is Ok)
        }
    })
    &&& (r matches Ok(Some(t)) ==> 0 <= t <= 2 * (MESH_COORD_LIMIT as int))
}

/// The fill color the record resolves to under the given theme.
fn prim_fill(prim: &Primitive, th: &Theme) -> (r: Color)
    ensures
        r == spec_prim_fill(*prim, *th),
{
    let explicit = match prim {
        Primitive::Quad(q) => q.polygon.color,
        Primitive::Polygon(p) => p.color,
    };
    match explicit {
        Some(c) => c,
        None => match prim {
            Primitive::Quad(_) => th.fill_color(theme::Primitive::Quad),
            Primitive::Polygon(_) => th.fill_color(theme::Primitive::Polygon),
        },
    }
}

/// The spatial properties the record stores on its node.
fn prim_spatial_props(prim: &Primitive) -> (r: spatial::Properties)
    requires
        prim.wf(),
    ensures
        r == spec_prim_spatial(*prim),
        position_in_input_range(r.position),
{
    let p = match prim {
        Primitive::Quad(q) => &q.polygon,
        Primitive::Polygon(p) => p,
    };
    spatial::Properties {
        position: p.position,
        orientation: p.orientation,
        scale: Point3 { x: 1, y: 1, z: 1 },
    }
}

impl Draw {
    /// Commit resolved geometry for node `n`: append the points and a
    /// triangle fan over them to the mesh, record the spatial properties on
    /// the node, and mark the slot resolved.
    fn commit_geometry(
        &mut self,
        n: usize,
        points: Vec<Point3>,
        fill: Color,
        sp: spatial::Properties,
    ) -> (res: ResolvedDrawing)
        requires
            old(self).wf(),
            (n as int) < old(self).drawings@.len(),
            old(self).drawings@[n as int] is Resolving,
            forall|i: int| 0 <= i < points@.len()
                ==> point3_in_mesh_range(#[trigger] points@[i]),
            position_in_input_range(sp.position),
        ensures
            final(self).wf(),
            final(self).theme == old(self).theme,
            old(self).mesh.extended_by(final(self).mesh),
            final(self).mesh.points@ == old(self).mesh.points@ + points@,
            final(self).drawings@ == old(self).drawings@.update(
                n as int, DrawingState::Resolved(res)),
            final(self).graph.nodes@ == old(self).graph.nodes@.update(
                n as int, crate::graph::Node {
                    parent: old(self).graph.nodes@[n as int].parent,
                    spatial: sp,
                }),
            res.vertex_ranges.points.start == old(self).mesh.points@.len(),
            res.vertex_ranges.points.spec_len() == points@.len(),
            res.vertex_ranges.points.end == final(self).mesh.points@.len(),
            res.vertex_ranges.colors.start == old(self).mesh.colors@.len(),
            res.vertex_ranges.colors.end == final(self).mesh.colors@.len(),
            res.vertex_ranges.tex_coords.start == old(self).mesh.tex_coords@.len(),
            res.vertex_ranges.tex_coords.end == final(self).mesh.tex_coords@.len(),
            final(self).mesh.points@.subrange(
                res.vertex_ranges.points.start as int,
                res.vertex_ranges.points.end as int) == points@,
            res.vertex_ranges.colors.spec_len() == 0,
            res.vertex_ranges.tex_coords.spec_len() == 0,
            res.min_index == res.vertex_ranges.points.start,
            res.index_range.spec_len() == spec_fan_len(points@.len() as int),
            res.index_range.start == old(self).mesh.indices@.len(),
            res.index_range.end == final(self).mesh.indices@.len(),
            forall|j: int| 0 <= j < res.index_range.spec_len()
                ==> #[trigger] final(self).mesh.indices@[res.index_range.start + j]
                    == spec_fan_value(res.vertex_ranges.points.start as int, j),
            res.fill_color == fill,
            res.x_dim == spec_extent(points@, Axis::X),
            res.y_dim == spec_extent(points@, Axis::Y),
            res.z_dim == spec_extent(points@, Axis::Z),
            spec_count_pending(final(self).drawings@)
                == spec_count_pending(old(self).drawings@),
    {
        let ghost pre = *self;
        let ghost pts = points@;
        let base = self.mesh.points.len();
        let count = points.len();
        let x_dim = crate::geom::points_extent(&points, Axis::X);
        let y_dim = crate::geom::points_extent(&points, Axis::Y);
        let z_dim = crate::geom::points_extent(&points, Axis::Z);
        let vr = self.mesh.push_vertex_range(points, Vec::new(), Vec::new());
        let ghost mid = self.mesh;
        let idx = fan_indices(count, base);
        let ir = self.mesh.push_indices(idx);
        let res = ResolvedDrawing {
            vertex_ranges: vr,
            index_range: ir,
            min_index: base,
            fill_color: fill,
            x_dim,
            y_dim,
            z_dim,
        };
        self.graph.set_node_properties(n, sp);
        self.drawings.set(n, DrawingState::Resolved(res));
        proof {
            lemma_count_pending_update(
                pre.drawings@, n as int, DrawingState::Resolved(res));
            crate::mesh::lemma_extended_by_trans(pre.mesh, mid, self.mesh);
            assert(self.mesh.points@ == pre.mesh.points@ + pts);
            assert(self.mesh.points@.subrange(base as int, (base + count) as int)
                =~= pts);
            assert forall|j: int| 0 <= j < ir.spec_len()
                implies #[trigger] self.mesh.indices@[ir.start + j]
                    == spec_fan_value(base as int, j) by {
                assert(self.mesh.indices@[ir.start + j] == idx@[j]);
            }
            assert forall|j: int| ir.start <= j < ir.end
                implies res.min_index <= #[trigger] self.mesh.indices@[j]
                    && (self.mesh.indices@[j] as int) < vr.points.end by {
                assert(self.mesh.indices@[j] == idx@[j - ir.start]);
            }
            assert(resolved_wf(res, self.mesh));
            assert forall|i: int| 0 <= i < self.drawings@.len()
                implies ((#[trigger] self.drawings@[i]) matches DrawingState::Resolved(q)
                    ==> resolved_wf(q, self.mesh)) by {
                if i != n {
                    assert(self.drawings@[i] == pre.drawings@[i]);
                    if pre.drawings@[i] is Resolved {
                        let q = pre.drawings@[i]->Resolved_0;
                        assert(resolved_wf(q, pre.mesh));
                        assert forall|j: int| q.index_range.start <= j < q.index_range.end
                            implies q.min_index <= #[trigger] self.mesh.indices@[j]
                                && (self.mesh.indices@[j] as int) < q.vertex_ranges.points.end by {
                            assert(self.mesh.indices@[j] == pre.mesh.indices@[j]);
                        }
                    }
                }
            }
            assert forall|i: int| 0 <= i < self.drawings@.len()
                implies ((#[trigger] self.drawings@[i]) matches DrawingState::Pending(q)
                    ==> q.wf()) by {
                if i != n {
                    assert(self.drawings@[i] == pre.drawings@[i]);
                }
            }
        }
        res
    }
}


impl Draw {
    /// The length of the untransformed node at the given index along `axis`.
    ///
    /// If this node's drawing is not yet complete, this call causes it to
    /// finish and commits its geometry to the inner graph and mesh; asking
    /// again afterwards returns the same value and changes nothing. A node
    /// that was never created is a lookup failure; a node already resolving
    /// on this same call stack is a re-entrant borrow and is rejected.
    pub fn untransformed_dimension_of(&mut self, n: usize, axis: Axis)
        -> (r: Result<Option<i64>, DrawError>)
        requires
            old(self).wf(),
        ensures
            final(self).wf(),
            frame_preserved(*old(self), *final(self)),
            spec_count_pending(final(self).drawings@)
                <= spec_count_pending(old(self).drawings@),
            dimension_query_contract(*old(self), *final(self), n as int, axis, r),
        decreases spec_count_pending(old(self).drawings@), 1int,
    {
        if n >= self.drawings.len() {
            return Err(DrawError::NodeNotFound);
        }
        let is_pending = match &self.drawings[n] {
            DrawingState::Pending(_) => true,
            _ => false,
        };
        if is_pending {
            match self.resolve_node(n) {
                Ok(()) => {}
                Err(e) => {
                    return Err(e);
                }
            }
        } else {
            proof {
                lemma_frame_refl(*self);
            }
        }
        match &self.drawings[n] {
            DrawingState::Vacant => Ok(None),
            DrawingState::Resolving => Err(DrawError::NestedResolve),
            DrawingState::Resolved(res) => Ok(Some(Draw::resolved_dim(res, axis))),
            DrawingState::Pending(_) => {
                // a pending slot cannot survive a successful resolve
                Err(DrawError::NestedResolve)
            }
        }
    }

    /// The scalar a single dimension request stands for, resolving the
    /// referenced node if it is still open.
    fn dim_scalar(&mut self, req: Option<Dimension>, axis: Axis)
        -> (r: Result<Option<i64>, DrawError>)
        requires
            old(self).wf(),
            req matches Some(Dimension::Absolute(t)) ==> 0 <= t <= COORD_LIMIT,
        ensures
            final(self).wf(),
            frame_preserved(*old(self), *final(self)),
            spec_count_pending(final(self).drawings@)
                <= spec_count_pending(old(self).drawings@),
            r matches Ok(v) ==> (v == spec_dim_value(*final(self), req, axis)
                && spec_dim_settled(*final(self), req)
                && spec_dim_ok(v)),
            (match req {
                None => r is Ok,
                Some(Dimension::Absolute(_)) => r is Ok,
                Some(Dimension::Of(_)) => true,
            }),
            spec_dim_ready(*old(self), req) ==> r is Ok,
            spec_dim_ready(*old(self), req) ==> *final(self) == *old(self),
        decreases spec_count_pending(old(self).drawings@), 2int,
    {
        match req {
            None => {
                proof {
                    lemma_frame_refl(*self);
                }
                Ok(None)
            }
            Some(Dimension::Absolute(v)) => {
                proof {
                    lemma_frame_refl(*self);
                }
                Ok(Some(v))
            }
            Some(Dimension::Of(m)) => {
                match self.untransformed_dimension_of(m, axis) {
                    Err(e) => Err(e),
                    Ok(None) => Err(DrawError::DimensionUnavailable),
                    Ok(Some(t)) => {
                        if t > COORD_LIMIT {
                            Err(DrawError::DimensionTooLarge)
                        } else {
                            Ok(Some(t))
                        }
                    }
                }
            }
        }
    }

    /// Resolve the open drawing on node `n`: read its record, settle its
    /// dimension targets (resolving the nodes they reference if needed),
    /// scale its shape, and commit points, indices, fill color and spatial
    /// properties. On failure the record is put back and the slot stays
    /// open.
    pub(crate) fn resolve_node(&mut self, n: usize) -> (r: Result<(), DrawError>)
        requires
            old(self).wf(),
            (n as int) < old(self).drawings@.len(),
            old(self).drawings@[n as int] is Pending,
        ensures
            final(self).wf(),
            frame_preserved(*old(self), *final(self)),
            spec_count_pending(final(self).drawings@)
                <= spec_count_pending(old(self).drawings@),
            r is Ok ==> (final(self).drawings@[n as int]
                    matches DrawingState::Resolved(res)
                && resolution_result(*old(self),
                    *final(self), old(self).drawings@[n as int]->Pending_0, res)
                && final(self).graph.nodes@[n as int].spatial
                    == spec_prim_spatial(old(self).drawings@[n as int]->Pending_0)),
            r is Err ==> final(self).drawings@[n as int]
                == old(self).drawings@[n as int],
            spec_prim_self_contained(old(self).drawings@[n as int]->Pending_0)
                ==> r is Ok,
            spec_prim_ready(*old(self), old(self).drawings@[n as int]->Pending_0)
                ==> r is Ok,
        decreases spec_count_pending(old(self).drawings@), 0int,
    {
        let ghost pre = *self;
        let mut taken = DrawingState::Resolving;
        let slot_ref = vstd::std_specs::vec::vec_index_mut(&mut self.drawings, n);
        core::mem::swap(&mut taken, slot_ref);
        proof {
            lemma_count_pending_update(pre.drawings@, n as int, DrawingState::Resolving);
            assert forall|i: int| 0 <= i < self.drawings@.len()
                implies ((#[trigger] self.drawings@[i]) matches DrawingState::Resolved(q)
                    ==> resolved_wf(q, self.mesh)) by {
                if i != n {
                    assert(self.drawings@[i] == pre.drawings@[i]);
                }
            }
            assert forall|i: int| 0 <= i < self.drawings@.len()
                implies ((#[trigger] self.drawings@[i]) matches DrawingState::Pending(q)
                    ==> q.wf()) by {
                if i != n {
                    assert(self.drawings@[i] == pre.drawings@[i]);
                }
            }
        }
        let ghost s0 = *self;
        let prim = match taken {
            DrawingState::Pending(p) => p,
            _ => {
                return Err(DrawError::NestedResolve);
            }
        };
        let (req_x, req_y, req_z) = match &prim {
            Primitive::Quad(q) => (q.dimensions.x, q.dimensions.y, q.dimensions.z),
            Primitive::Polygon(_) => (
                None::<Dimension>, None::<Dimension>, None::<Dimension>),
        };
        proof {
            if spec_dim_ready(pre, req_x) {
                lemma_dim_ready_stable(pre, s0, req_x);
            }
            if spec_dim_ready(pre, req_y) {
                lemma_dim_ready_stable(pre, s0, req_y);
            }
            if spec_dim_ready(pre, req_z) {
                lemma_dim_ready_stable(pre, s0, req_z);
            }
        }
        let mx = match self.dim_scalar(req_x, Axis::X) {
            Ok(v) => v,
            Err(e) => {
                let ghost s1 = *self;
                self.drawings.set(n, DrawingState::Pending(prim));
                proof {
                    lemma_frame_count_le(s0, s1);
                    lemma_count_pending_update(
                        s1.drawings@, n as int, DrawingState::Pending(prim));
                    lemma_frame_resolve_err(pre, s0, s1, *self, n as int);
                }
                return Err(e);
            }
        };
        let ghost a1 = *self;
        proof {
            if spec_dim_ready(s0, req_y) {
                lemma_dim_ready_stable(s0, a1, req_y);
            }
            if spec_dim_ready(s0, req_z) {
                lemma_dim_ready_stable(s0, a1, req_z);
            }
        }
        let my = match self.dim_scalar(req_y, Axis::Y) {
            Ok(v) => v,
            Err(e) => {
                let ghost s1 = *self;
                self.drawings.set(n, DrawingState::Pending(prim));
                proof {
                    lemma_frame_trans(s0, a1, s1);
                    lemma_frame_count_le(s0, s1);
                    lemma_count_pending_update(
                        s1.drawings@, n as int, DrawingState::Pending(prim));
                    lemma_frame_resolve_err(pre, s0, s1, *self, n as int);
                }
                return Err(e);
            }
        };
        let ghost a2 = *self;
        proof {
            lemma_frame_trans(s0, a1, a2);
            lemma_frame_count_le(s0, a2);
            if spec_dim_ready(a1, req_z) {
                lemma_dim_ready_stable(a1, a2, req_z);
            }
        }
        let _mz = match self.dim_scalar(req_z, Axis::Z) {
            Ok(v) => v,
            Err(e) => {
                let ghost s1 = *self;
                self.drawings.set(n, DrawingState::Pending(prim));
                proof {
                    lemma_frame_trans(s0, a2, s1);
                    lemma_frame_count_le(s0, s1);
                    lemma_count_pending_update(
                        s1.drawings@, n as int, DrawingState::Pending(prim));
                    lemma_frame_resolve_err(pre, s0, s1, *self, n as int);
                }
                return Err(e);
            }
        };
        let ghost s1 = *self;
        proof {
            lemma_frame_trans(s0, a2, s1);
            lemma_frame_count_le(s0, s1);
            lemma_dim_value_stable(a1, s1, req_x, Axis::X);
            lemma_dim_value_stable(a2, s1, req_y, Axis::Y);
        }
        let points: Vec<Point3> = match &prim {
            Primitive::Quad(q) => {
                let scaled = apply_dimensions(q.quad, mx, my);
                let mut v: Vec<Point3> = Vec::new();
                v.push(Point3 { x: scaled.a.x, y: scaled.a.y, z: 0 });
                v.push(Point3 { x: scaled.b.x, y: scaled.b.y, z: 0 });
                v.push(Point3 { x: scaled.c.x, y: scaled.c.y, z: 0 });
                v.push(Point3 { x: scaled.d.x, y: scaled.d.y, z: 0 });
                proof {
                    assert(v@ =~= spec_prim_points(prim, mx, my));
                }
                v
            }
            Primitive::Polygon(p) => {
                let mut v: Vec<Point3> = Vec::new();
                let mut i: usize = 0;
                while i < p.points.len()
                    invariant
                        0 <= i <= p.points@.len(),
                        p.wf(),
                        v@.len() == i,
                        forall|k: int| 0 <= k < i ==> #[trigger] v@[k] == (Point3 {
                            x: p.points@[k].x,
                            y: p.points@[k].y,
                            z: 0i64,
                        }),
                    decreases p.points@.len() - i,
                {
                    let pt = p.points[i];
                    v.push(Point3 { x: pt.x, y: pt.y, z: 0 });
                    i = i + 1;
                }
                proof {
                    assert(v@ =~= spec_prim_points(prim, mx, my));
                }
                v
            }
        };
        proof {
            assert forall|i: int| 0 <= i < points@.len()
                implies point3_in_mesh_range(#[trigger] points@[i]) by {
            }
        }
        let fill = prim_fill(&prim, &self.theme);
        let sp = prim_spatial_props(&prim);
        let ghost before_commit = *self;
        let res = self.commit_geometry(n, points, fill, sp);
        proof {
            lemma_frame_resolve_ok(pre, s0, s1, *self, n as int, res);
            if spec_prim_ready(pre, prim) {
                assert(a1 == s0);
                assert(a2 == a1);
                assert(s1 == a2);
                assert(s1.mesh == pre.mesh);
            }
            assert forall|i: int| 0 <= i < s1.drawings@.len()
                    && (#[trigger] s1.drawings@[i]) is Resolved
                implies self.drawings@[i] == s1.drawings@[i] by {
                assert(i != n);
            }
            lemma_dim_value_stable(s1, *self, req_x, Axis::X);
            lemma_dim_value_stable(s1, *self, req_y, Axis::Y);
            lemma_dim_value_stable(s1, *self, req_z, Axis::Z);
            assert(self.mesh.points@.subrange(
                res.vertex_ranges.points.start as int,
                res.vertex_ranges.points.end as int) == spec_prim_points(prim, mx, my));
            assert(resolution_result(pre, *self, prim, res));
        }
        Ok(())
    }
}


/// The contract of a transformed dimension query: the untransformed answer
/// multiplied by the node's composed scale, failing loudly when the product
/// leaves the machine integer range. Only the parent chain's scale is
/// composed into the answer: orientation is kept in integer angle units, and
/// rotating an axis-aligned extent would take trigonometry, which the
/// integer model deliberately does without. A node with a drawing, open or
/// resolved, always has a measurable answer: `Ok(None)` happens only for a
/// vacant node.
pub open spec fn transformed_query_contract(
    pre: Draw, post: Draw, n: int, axis: Axis, r: Result<Option<i64>, DrawError>) -> bool {
    &&& (n >= pre.drawings@.len()
        ==> r == Err::<Option<i64>, DrawError>(DrawError::NodeNotFound) && post == pre)
    &&& (n < pre.drawings@.len() ==> match pre.drawings@[n] {
        DrawingState::Vacant =>
            r == Ok::<Option<i64>, DrawError>(None) && post == pre,
        DrawingState::Resolving =>
            r == Err::<Option<i64>, DrawError>(DrawError::NestedResolve) && post == pre,
        DrawingState::Resolved(res) => post == pre
            && r == (match crate::graph::spec_checked_mul(
                pre.graph.spec_composed_scale(n, axis),
                spec_resolved_dim(res, axis) as int) {
                Some(v) => Ok::<Option<i64>, DrawError>(Some(v as i64)),
                None => Err::<Option<i64>, DrawError>(DrawError::ArithmeticOverflow),
            }),
        DrawingState::Pending(prim) => {
            &&& (r matches Ok(Some(t))
                ==> (post.drawings@[n] matches DrawingState::Resolved(res)
                    && resolution_result(pre, post, prim, res)
                    && Some(t as int) == crate::graph::spec_checked_mul(
                        post.graph.spec_composed_scale(n, axis),
                        spec_resolved_dim(res, axis) as int)))
            &&& (r matches Ok(v) ==> v is Some)
            &&& (r is Err ==> (post.drawings@[n] == pre.drawings@[n]
                || post.drawings@[n] is Resolved))
        }
    })
}

impl Draw {
    /// The length of the untransformed node at the given index along the x
    /// axis.
    pub fn untransformed_x_dimension_of(&mut self, n: usize)
        -> (r: Result<Option<i64>, DrawError>)
        requires
            old(self).wf(),
        ensures
            final(self).wf(),
            frame_preserved(*old(self), *final(self)),
            dimension_query_contract(*old(self), *final(self), n as int, Axis::X, r),
    {
        self.untransformed_dimension_of(n, Axis::X)
    }

    /// The length of the untransformed node at the given index along the y
    /// axis.
    pub fn untransformed_y_dimension_of(&mut self, n: usize)
        -> (r: Result<Option<i64>, DrawError>)
        requires
            old(self).wf(),
        ensures
            final(self).wf(),
            frame_preserved(*old(self), *final(self)),
            dimension_query_contract(*old(self), *final(self), n as int, Axis::Y, r),
    {
        self.untransformed_dimension_of(n, Axis::Y)
    }

    /// The length of the untransformed node at the given index along the z
    /// axis.
    pub fn untransformed_z_dimension_of(&mut self, n: usize)
        -> (r: Result<Option<i64>, DrawError>)
        requires
            old(self).wf(),
        ensures
            final(self).wf(),
            frame_preserved(*old(self), *final(self)),
            dimension_query_contract(*old(self), *final(self), n as int, Axis::Z, r),
    {
        self.untransformed_dimension_of(n, Axis::Z)
    }

    /// The length of the transformed node at the given index along `axis`:
    /// the untransformed length scaled by the composed scale of the node's
    /// parent chain. Composed orientation is deliberately not applied:
    /// rotating an axis-aligned extent would take trigonometry, and the
    /// integer coordinate model keeps orientation as an opaque angle value
    /// instead.
    ///
    /// If this node's drawing is not yet complete, this call causes it to
    /// finish and commits its geometry to the inner graph and mesh.
    pub fn dimension_of(&mut self, n: usize, axis: Axis)
        -> (r: Result<Option<i64>, DrawError>)
        requires
            old(self).wf(),
        ensures
            final(self).wf(),
            frame_preserved(*old(self), *final(self)),
            transformed_query_contract(*old(self), *final(self), n as int, axis, r),
    {
        match self.untransformed_dimension_of(n, axis) {
            Err(e) => Err(e),
            Ok(None) => Ok(None),
            Ok(Some(u)) => {
                match self.graph.composed_scale(n, axis) {
                    None => Err(DrawError::ArithmeticOverflow),
                    Some(sc) => {
                        proof {
                            assert((u as int) * (sc as int) == (sc as int) * (u as int))
                                by (nonlinear_arith);
                        }
                        match u.checked_mul(sc) {
                            None => Err(DrawError::ArithmeticOverflow),
                            Some(v) => Ok(Some(v)),
                        }
                    }
                }
            }
        }
    }

    /// The length of the transformed node at the given index along the x
    /// axis.
    pub fn x_dimension_of(&mut self, n: usize) -> (r: Result<Option<i64>, DrawError>)
        requires
            old(self).wf(),
        ensures
            final(self).wf(),
            frame_preserved(*old(self), *final(self)),
            transformed_query_contract(*old(self), *final(self), n as int, Axis::X, r),
    {
        self.dimension_of(n, Axis::X)
    }

    /// The length of the transformed node at the given index along the y
    /// axis.
    pub fn y_dimension_of(&mut self, n: usize) -> (r: Result<Option<i64>, DrawError>)
        requires
            old(self).wf(),
        ensures
            final(self).wf(),
            frame_preserved(*old(self), *final(self)),
            transformed_query_contract(*old(self), *final(self), n as int, Axis::Y, r),
    {
        self.dimension_of(n, Axis::Y)
    }

    /// The length of the transformed node at the given index along the z
    /// axis.
    pub fn z_dimension_of(&mut self, n: usize) -> (r: Result<Option<i64>, DrawError>)
        requires
            old(self).wf(),
        ensures
            final(self).wf(),
            frame_preserved(*old(self), *final(self)),
            transformed_query_contract(*old(self), *final(self), n as int, Axis::Z, r),
    {
        self.dimension_of(n, Axis::Z)
    }
}

impl dimension::Properties {
    /// Return the requested dimensions as scalar values, resolving any node
    /// a request refers to. Each returned scalar is the value its request
    /// denotes in the state the call leaves behind.
    pub fn to_scalars(&self, draw: &mut Draw)
        -> (r: Result<(Option<i64>, Option<i64>, Option<i64>), DrawError>)
        requires
            old(draw).wf(),
            dimension::properties_in_input_range(*self),
        ensures
            final(draw).wf(),
            frame_preserved(*old(draw), *final(draw)),
            r matches Ok(t) ==> ({
                &&& t.0 == spec_dim_value(*final(draw), self.x, Axis::X)
                &&& t.1 == spec_dim_value(*final(draw), self.y, Axis::Y)
                &&& t.2 == spec_dim_value(*final(draw), self.z, Axis::Z)
                &&& spec_dim_settled(*final(draw), self.x)
                &&& spec_dim_settled(*final(draw), self.y)
                &&& spec_dim_settled(*final(draw), self.z)
                &&& spec_dim_ok(t.0)
                &&& spec_dim_ok(t.1)
                &&& spec_dim_ok(t.2)
            }),
            (self.x matches Some(Dimension::Of(_)) || self.y matches Some(Dimension::Of(_))
                || self.z matches Some(Dimension::Of(_))) || r is Ok,
            (spec_dim_ready(*old(draw), self.x) && spec_dim_ready(*old(draw), self.y)
                && spec_dim_ready(*old(draw), self.z)) ==> r is Ok,
    {
        let ghost pre = *draw;
        let mx = match draw.dim_scalar(self.x, Axis::X) {
            Ok(v) => v,
            Err(e) => {
                return Err(e);
            }
        };
        let ghost a1 = *draw;
        proof {
            if spec_dim_ready(pre, self.y) {
                lemma_dim_ready_stable(pre, a1, self.y);
            }
            if spec_dim_ready(pre, self.z) {
                lemma_dim_ready_stable(pre, a1, self.z);
            }
        }
        let my = match draw.dim_scalar(self.y, Axis::Y) {
            Ok(v) => v,
            Err(e) => {
                let ghost a2 = *draw;
                proof {
                    lemma_frame_trans(pre, a1, a2);
                }
                return Err(e);
            }
        };
        let ghost a2 = *draw;
        proof {
            if spec_dim_ready(a1, self.z) {
                lemma_dim_ready_stable(a1, a2, self.z);
            }
        }
        let mz = match draw.dim_scalar(self.z, Axis::Z) {
            Ok(v) => v,
            Err(e) => {
                let ghost a3 = *draw;
                proof {
                    lemma_frame_trans(pre, a1, a2);
                    lemma_frame_trans(pre, a2, a3);
                }
                return Err(e);
            }
        };
        let ghost a3 = *draw;
        proof {
            lemma_frame_trans(pre, a1, a2);
            lemma_frame_trans(pre, a2, a3);
            lemma_dim_value_stable(a1, a2, self.x, Axis::X);
            lemma_dim_value_stable(a2, a3, self.x, Axis::X);
            lemma_dim_value_stable(a2, a3, self.y, Axis::Y);
        }
        Ok((mx, my, mz))
    }
}


/// When a drawing is ready to be built it returns a `Drawn`: the spatial
/// properties for its node, a vertex producer, and an index producer.
pub type Drawn<V, I> = (spatial::Properties, V, I);

/// What a `Drawn` tuple produced from the record `prim`, begun in state
/// `pre`, promises in the state `post` that produced it: its vertex producer
/// yields exactly the record's resolved points wearing the resolved fill
/// color, and its index producer yields a triangle fan over them. The
/// record's data is the last thing committed, so its ranges end exactly at
/// the final store lengths; and when every dimension target was already
/// settled in `pre`, its ranges begin exactly at `pre`'s store lengths — in
/// particular, at zero right after a `clear`.
pub open spec fn drawn_result(
    pre: Draw, post: Draw, prim: Primitive,
    t: (spatial::Properties, VerticesFromRanges, IndicesFromRange)) -> bool {
    let mx = spec_dim_value(post, spec_prim_dim_request(prim, Axis::X), Axis::X);
    let my = spec_dim_value(post, spec_prim_dim_request(prim, Axis::Y), Axis::Y);
    let pts = spec_prim_points(prim, mx, my);
    let fill = spec_prim_fill(prim, post.theme);
    let base = t.1.ranges.points.start as int;
    &&& spec_dim_settled(post, spec_prim_dim_request(prim, Axis::X))
    &&& spec_dim_settled(post, spec_prim_dim_request(prim, Axis::Y))
    &&& spec_dim_settled(post, spec_prim_dim_request(prim, Axis::Z))
    &&& spec_dim_ok(mx)
    &&& spec_dim_ok(my)
    &&& t.0 == spec_prim_spatial(prim)
    &&& t.1.wf(post.mesh)
    &&& t.1.fill_color == Some(fill)
    &&& t.1.ranges.points.spec_len() == pts.len()
    &&& t.1.ranges.points.end == post.mesh.points@.len()
    &&& t.1.ranges.colors.spec_len() == 0
    &&& t.1.ranges.tex_coords.spec_len() == 0
    &&& post.mesh.points@.subrange(base, t.1.ranges.points.end as int) == pts
    &&& t.1.remaining(post.mesh) == Seq::new(pts.len(), |k: int| Vertex {
        point: pts[k],
        color: fill,
        tex_coords: spec_default_tex_coords(),
    })
    &&& t.2.wf(post.mesh.indices@)
    &&& t.2.min_index == t.1.ranges.points.start
    &&& t.2.range.spec_len() == spec_fan_len(pts.len() as int)
    &&& t.2.range.end == post.mesh.indices@.len()
    &&& forall|j: int| 0 <= j < t.2.range.spec_len()
        ==> #[trigger] post.mesh.indices@[t.2.range.start + j] == spec_fan_value(base, j)
    &&& spec_prim_ready(pre, prim) ==> (
        t.1.ranges.points.start == pre.mesh.points@.len()
        && t.1.ranges.colors.start == pre.mesh.colors@.len()
        && t.1.ranges.tex_coords.start == pre.mesh.tex_coords@.len()
        && t.2.range.start == pre.mesh.indices@.len())
}

/// Types that can be drawn into a parent draw context's geometry graph and
/// mesh: the primitive catalog's common face. The positions a `Drawn` yields
/// are untransformed; displacement and orientation are applied through the
/// geometry graph.
pub trait IntoDrawn: Sized {
    /// The record's caller-supplied values lie within the accepted bounds.
    spec fn wf_drawn(&self) -> bool;

    /// The record, as a member of the primitive catalog.
    spec fn as_primitive(&self) -> Primitive;

    /// Consume the record and return its `Drawn` form, committing its vertex
    /// data to the shared intermediary mesh.
    fn into_drawn(self, draw: &mut Draw)
        -> (r: Result<Drawn<VerticesFromRanges, IndicesFromRange>, DrawError>)
        requires
            old(draw).wf(),
            self.wf_drawn(),
        ensures
            final(draw).wf(),
            frame_preserved(*old(draw), *final(draw)),
            r matches Ok(t) ==> drawn_result(
                *old(draw), *final(draw), self.as_primitive(), t),
            spec_prim_self_contained(self.as_primitive()) ==> r is Ok,
            spec_prim_ready(*old(draw), self.as_primitive()) ==> r is Ok,
    ;
}

impl IntoDrawn for Quad {
    open spec fn wf_drawn(&self) -> bool {
        self.wf()
    }

    open spec fn as_primitive(&self) -> Primitive {
        Primitive::Quad(*self)
    }

    fn into_drawn(self, draw: &mut Draw)
        -> (r: Result<Drawn<VerticesFromRanges, IndicesFromRange>, DrawError>)
    {
        draw.produce_drawn(Primitive::Quad(self))
    }
}

impl IntoDrawn for Polygon {
    open spec fn wf_drawn(&self) -> bool {
        self.wf()
    }

    open spec fn as_primitive(&self) -> Primitive {
        Primitive::Polygon(*self)
    }

    fn into_drawn(self, draw: &mut Draw)
        -> (r: Result<Drawn<VerticesFromRanges, IndicesFromRange>, DrawError>)
    {
        draw.produce_drawn(Primitive::Polygon(self))
    }
}

impl Draw {
    /// Append drawn points and a fan over them to the mesh, leaving slots
    /// and graph untouched, and hand back range-driven producers.
    fn push_drawn(&mut self, points: Vec<Point3>, fill: Color)
        -> (r: (VerticesFromRanges, IndicesFromRange))
        requires
            old(self).wf(),
            forall|i: int| 0 <= i < points@.len()
                ==> point3_in_mesh_range(#[trigger] points@[i]),
        ensures
            final(self).wf(),
            final(self).theme == old(self).theme,
            final(self).graph == old(self).graph,
            final(self).drawings == old(self).drawings,
            old(self).mesh.extended_by(final(self).mesh),
            final(self).mesh.points@ == old(self).mesh.points@ + points@,
            r.0.fill_color == Some(fill),
            r.0.wf(final(self).mesh),
            r.0.ranges.points.start == old(self).mesh.points@.len(),
            r.0.ranges.points.spec_len() == points@.len(),
            r.0.ranges.points.end == final(self).mesh.points@.len(),
            r.0.ranges.colors.start == old(self).mesh.colors@.len(),
            r.0.ranges.colors.end == final(self).mesh.colors@.len(),
            r.0.ranges.tex_coords.start == old(self).mesh.tex_coords@.len(),
            r.0.ranges.tex_coords.end == final(self).mesh.tex_coords@.len(),
            r.0.ranges.colors.spec_len() == 0,
            r.0.ranges.tex_coords.spec_len() == 0,
            final(self).mesh.points@.subrange(
                r.0.ranges.points.start as int,
                r.0.ranges.points.end as int) == points@,
            r.1.wf(final(self).mesh.indices@),
            r.1.min_index == r.0.ranges.points.start,
            r.1.range.spec_len() == spec_fan_len(points@.len() as int),
            r.1.range.start == old(self).mesh.indices@.len(),
            r.1.range.end == final(self).mesh.indices@.len(),
            forall|j: int| 0 <= j < r.1.range.spec_len()
                ==> #[trigger] final(self).mesh.indices@[r.1.range.start + j]
                    == spec_fan_value(r.0.ranges.points.start as int, j),
    {
        let ghost pre = *self;
        let ghost pts = points@;
        let base = self.mesh.points.len();
        let count = points.len();
        let vr = self.mesh.push_vertex_range(points, Vec::new(), Vec::new());
        let ghost mid = self.mesh;
        let idx = fan_indices(count, base);
        let ir = self.mesh.push_indices(idx);
        proof {
            crate::mesh::lemma_extended_by_trans(pre.mesh, mid, self.mesh);
            assert(self.mesh.points@ == pre.mesh.points@ + pts);
            assert(self.mesh.points@.subrange(base as int, (base + count) as int)
                =~= pts);
            assert forall|j: int| 0 <= j < ir.spec_len()
                implies #[trigger] self.mesh.indices@[ir.start + j]
                    == spec_fan_value(base as int, j) by {
                assert(self.mesh.indices@[ir.start + j] == idx@[j]);
            }
            assert forall|i: int| 0 <= i < self.drawings@.len()
                implies ((#[trigger] self.drawings@[i]) matches DrawingState::Resolved(q)
                    ==> resolved_wf(q, self.mesh)) by {
                if pre.drawings@[i] is Resolved {
                    let q = pre.drawings@[i]->Resolved_0;
                    assert(resolved_wf(q, pre.mesh));
                    assert forall|j: int| q.index_range.start <= j < q.index_range.end
                        implies q.min_index <= #[trigger] self.mesh.indices@[j]
                            && (self.mesh.indices@[j] as int) < q.vertex_ranges.points.end by {
                        assert(self.mesh.indices@[j] == pre.mesh.indices@[j]);
                    }
                }
            }
        }
        (VerticesFromRanges::new(vr, Some(fill)), IndicesFromRange::new(ir, base))
    }

    /// Resolve the record `prim` into its `Drawn` form: settle its dimension
    /// targets, scale its shape, and commit its vertex data to the mesh. No
    /// node is involved; the caller owns the outcome.
    fn produce_drawn(&mut self, prim: Primitive)
        -> (r: Result<Drawn<VerticesFromRanges, IndicesFromRange>, DrawError>)
        requires
            old(self).wf(),
            prim.wf(),
        ensures
            final(self).wf(),
            frame_preserved(*old(self), *final(self)),
            r matches Ok(t) ==> drawn_result(*old(self), *final(self), prim, t),
            spec_prim_self_contained(prim) ==> r is Ok,
            spec_prim_ready(*old(self), prim) ==> r is Ok,
    {
        let ghost pre = *self;
        let (req_x, req_y, req_z) = match &prim {
            Primitive::Quad(q) => (q.dimensions.x, q.dimensions.y, q.dimensions.z),
            Primitive::Polygon(_) => (
                None::<Dimension>, None::<Dimension>, None::<Dimension>),
        };
        let mx = match self.dim_scalar(req_x, Axis::X) {
            Ok(v) => v,
            Err(e) => {
                return Err(e);
            }
        };
        let ghost a1 = *self;
        let my = match self.dim_scalar(req_y, Axis::Y) {
            Ok(v) => v,
            Err(e) => {
                let ghost a2 = *self;
                proof {
                    lemma_frame_trans(pre, a1, a2);
                }
                return Err(e);
            }
        };
        let ghost a2 = *self;
        let _mz = match self.dim_scalar(req_z, Axis::Z) {
            Ok(v) => v,
            Err(e) => {
                let ghost a3 = *self;
                proof {
                    lemma_frame_trans(pre, a1, a2);
                    lemma_frame_trans(pre, a2, a3);
                }
                return Err(e);
            }
        };
        let ghost a3 = *self;
        proof {
            lemma_frame_trans(pre, a1, a2);
            lemma_frame_trans(pre, a2, a3);
            lemma_dim_value_stable(a1, a2, req_x, Axis::X);
            lemma_dim_value_stable(a2, a3, req_x, Axis::X);
            lemma_dim_value_stable(a2, a3, req_y, Axis::Y);
        }
        let points: Vec<Point3> = match &prim {
            Primitive::Quad(q) => {
                let scaled = apply_dimensions(q.quad, mx, my);
                let mut v: Vec<Point3> = Vec::new();
                v.push(Point3 { x: scaled.a.x, y: scaled.a.y, z: 0 });
                v.push(Point3 { x: scaled.b.x, y: scaled.b.y, z: 0 });
                v.push(Point3 { x: scaled.c.x, y: scaled.c.y, z: 0 });
                v.push(Point3 { x: scaled.d.x, y: scaled.d.y, z: 0 });
                proof {
                    assert(v@ =~= spec_prim_points(prim, mx, my));
                }
                v
            }
            Primitive::Polygon(p) => {
                let mut v: Vec<Point3> = Vec::new();
                let mut i: usize = 0;
                while i < p.points.len()
                    invariant
                        0 <= i <= p.points@.len(),
                        p.wf(),
                        v@.len() == i,
                        forall|k: int| 0 <= k < i ==> #[trigger] v@[k] == (Point3 {
                            x: p.points@[k].x,
                            y: p.points@[k].y,
                            z: 0i64,
                        }),
                    decreases p.points@.len() - i,
                {
                    let pt = p.points[i];
                    v.push(Point3 { x: pt.x, y: pt.y, z: 0 });
                    i = i + 1;
                }
                proof {
                    assert(v@ =~= spec_prim_points(prim, mx, my));
                }
                v
            }
        };
        proof {
            assert forall|i: int| 0 <= i < points@.len()
                implies point3_in_mesh_range(#[trigger] points@[i]) by {
            }
        }
        let fill = prim_fill(&prim, &self.theme);
        let sp = prim_spatial_props(&prim);
        let (vfr, ifr) = self.push_drawn(points, fill);
        proof {
            lemma_frame_refl(a3);
            lemma_frame_trans(pre, a3, *self);
            if spec_prim_ready(pre, prim) {
                assert(a1 == pre);
                assert(a2 == a1);
                assert(a3 == a2);
            }
            lemma_dim_value_stable(a3, *self, req_x, Axis::X);
            lemma_dim_value_stable(a3, *self, req_y, Axis::Y);
            lemma_dim_value_stable(a3, *self, req_z, Axis::Z);
            assert(vfr.remaining(self.mesh) =~= Seq::new(
                spec_prim_points(prim, mx, my).len(), |k: int| Vertex {
                    point: spec_prim_points(prim, mx, my)[k],
                    color: spec_prim_fill(prim, self.theme),
                    tex_coords: spec_default_tex_coords(),
                }));
        }
        Ok((sp, vfr, ifr))
    }

    /// Finish every drawing that is still open, in node order. Resolving one
    /// drawing may resolve others it depends on; each is committed exactly
    /// once. Success is owed when every open record's dimension targets can
    /// be settled: unset, absolute, or naming a node already resolved with
    /// an in-range extent — in particular whenever no open record names
    /// another node at all.
    pub fn finish_remaining(&mut self) -> (r: Result<(), DrawError>)
        requires
            old(self).wf(),
        ensures
            final(self).wf(),
            frame_preserved(*old(self), *final(self)),
            r is Ok ==> forall|i: int| 0 <= i < final(self).drawings@.len()
                ==> !((#[trigger] final(self).drawings@[i]) is Pending),
            (forall|i: int| 0 <= i < old(self).drawings@.len()
                    && (#[trigger] old(self).drawings@[i]) is Pending
                ==> spec_prim_self_contained(old(self).drawings@[i]->Pending_0))
                ==> r is Ok,
            (forall|i: int| 0 <= i < old(self).drawings@.len()
                    && (#[trigger] old(self).drawings@[i]) is Pending
                ==> spec_prim_ready(*old(self), old(self).drawings@[i]->Pending_0))
                ==> r is Ok,
    {
        let ghost pre = *self;
        proof {
            lemma_frame_refl(pre);
        }
        let mut i: usize = 0;
        while i < self.drawings.len()
            invariant
                pre == *old(self),
                pre.wf(),
                self.wf(),
                frame_preserved(pre, *self),
                self.drawings@.len() == pre.drawings@.len(),
                0 <= i <= self.drawings@.len(),
                forall|j: int| 0 <= j < i ==> !((#[trigger] self.drawings@[j]) is Pending),
            decreases self.drawings@.len() - i,
        {
            let is_pending = match &self.drawings[i] {
                DrawingState::Pending(_) => true,
                _ => false,
            };
            if is_pending {
                let ghost mid = *self;
                match self.resolve_node(i) {
                    Ok(()) => {
                        proof {
                            lemma_frame_trans(pre, mid, *self);
                            assert forall|j: int| 0 <= j < i + 1
                                implies !((#[trigger] self.drawings@[j]) is Pending) by {
                                if j < i {
                                    assert(!(mid.drawings@[j] is Pending));
                                    assert(self.drawings@[j] == mid.drawings@[j]);
                                }
                            }
                        }
                    }
                    Err(e) => {
                        proof {
                            lemma_frame_trans(pre, mid, *self);
                            // the record resolve_node failed on is the one the
                            // drawing opened with: open slots keep their records
                            assert(pre.drawings@[i as int] is Pending) by {
                                if !(pre.drawings@[i as int] is Pending) {
                                    assert(mid.drawings@[i as int]
                                        == pre.drawings@[i as int]);
                                }
                            }
                            assert(mid.drawings@[i as int] == pre.drawings@[i as int]);
                            let record = pre.drawings@[i as int]->Pending_0;
                            if spec_prim_ready(pre, record) {
                                assert forall|ii: int| 0 <= ii < pre.drawings@.len()
                                        && (#[trigger] pre.drawings@[ii]) is Resolved
                                    implies mid.drawings@[ii] == pre.drawings@[ii] by {
                                }
                                lemma_dim_ready_stable(pre, mid,
                                    spec_prim_dim_request(record, Axis::X));
                                lemma_dim_ready_stable(pre, mid,
                                    spec_prim_dim_request(record, Axis::Y));
                                lemma_dim_ready_stable(pre, mid,
                                    spec_prim_dim_request(record, Axis::Z));
                                assert(false);
                            }
                            if spec_prim_self_contained(record) {
                                assert(false);
                            }
                        }
                        return Err(e);
                    }
                }
            }
            i = i + 1;
        }
        Ok(())
    }
}

} // verus!
