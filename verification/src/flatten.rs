//! Frame end: flatten the geometry graph and the intermediary mesh into one
//! committed mesh ready for upload, with one draw command per resolved node
//! carrying its composed transform's translation applied to its vertices.

use vstd::prelude::*;
use crate::color::Color;
use crate::draw::{Draw, DrawError, DrawingState, frame_preserved, resolved_wf};
use crate::geom::{Axis, Point2, Point3};
use crate::mesh::IndexRange;

verus! {

/// One node's slice of the committed mesh.
#[derive(Clone, Copy, Debug)]
pub struct DrawCommand {
    pub node: usize,
    pub vertex_range: IndexRange,
    pub index_range: IndexRange,
}

/// The flattened output of a frame: one vertex buffer, one index buffer, and
/// the per-node commands that slice them.
#[derive(Clone, Debug)]
pub struct CommittedMesh {
    pub points: Vec<Point3>,
    pub colors: Vec<Color>,
    pub tex_coords: Vec<Point2>,
    pub indices: Vec<usize>,
    pub commands: Vec<DrawCommand>,
}

/// A draw command is consistent with the state it was flattened from: its
/// ranges lie within the committed stores, its node's drawing is resolved,
/// and its slice sizes match that drawing's record.
pub open spec fn command_ok(c: DrawCommand, d: Draw, m: CommittedMesh) -> bool {
    &&& c.vertex_range.wf()
    &&& c.index_range.wf()
    &&& c.vertex_range.end <= m.points@.len()
    &&& c.index_range.end <= m.indices@.len()
    &&& (c.node as int) < d.drawings@.len()
    &&& (d.drawings@[c.node as int] matches DrawingState::Resolved(res)
        && c.vertex_range.spec_len() == res.vertex_ranges.points.spec_len()
        && c.index_range.spec_len() == res.index_range.spec_len())
}

/// The committed slice of a draw command holds the node's intermediary
/// vertices translated by the node's composed position, and the node's
/// indices rebased from the intermediary store onto the committed vertex
/// buffer.
pub open spec fn command_content(c: DrawCommand, d: Draw, m: CommittedMesh) -> bool {
    d.drawings@[c.node as int] matches DrawingState::Resolved(res) && ({
        let src = res.vertex_ranges.points.start as int;
        let isrc = res.index_range.start as int;
        &&& d.graph.spec_composed_position(c.node as int, crate::geom::Axis::X) matches Some(ox)
            && d.graph.spec_composed_position(c.node as int, crate::geom::Axis::Y) matches Some(oy)
            && d.graph.spec_composed_position(c.node as int, crate::geom::Axis::Z) matches Some(oz)
            && (forall|k: int| 0 <= k < c.vertex_range.spec_len()
                ==> (#[trigger] m.points@[c.vertex_range.start + k]).x
                        == d.mesh.points@[src + k].x + ox
                    && m.points@[c.vertex_range.start + k].y
                        == d.mesh.points@[src + k].y + oy
                    && m.points@[c.vertex_range.start + k].z
                        == d.mesh.points@[src + k].z + oz)
        &&& forall|j: int| 0 <= j < c.index_range.spec_len()
            ==> (#[trigger] m.indices@[c.index_range.start + j]) ==
                c.vertex_range.start + d.mesh.indices@[isrc + j] - res.min_index
    })
}

/// The committed stores hold one color and one texture coordinate per
/// vertex, and every index points at a committed vertex.
pub open spec fn committed_wf(m: CommittedMesh) -> bool {
    &&& m.colors@.len() == m.points@.len()
    &&& m.tex_coords@.len() == m.points@.len()
    &&& forall|k: int| 0 <= k < m.indices@.len()
        ==> (#[trigger] m.indices@[k]) < m.points@.len()
}

impl Draw {
    /// Finish every open drawing, then flatten the graph and the
    /// intermediary mesh into one committed mesh: each resolved node's
    /// vertices, translated by the node's composed position, and its
    /// indices, rebased from the intermediary store onto the committed
    /// vertex buffer. Fails loudly if a composed translation leaves the
    /// machine integer range.
    pub fn flatten(&mut self) -> (r: Result<CommittedMesh, DrawError>)
        requires
            old(self).wf(),
        ensures
            final(self).wf(),
            frame_preserved(*old(self), *final(self)),
            r is Ok ==> forall|i: int| 0 <= i < final(self).drawings@.len()
                ==> !((#[trigger] final(self).drawings@[i]) is Pending),
            r matches Ok(m) ==> ({
                &&& committed_wf(m)
                &&& forall|ci: int| 0 <= ci < m.commands@.len()
                    ==> command_ok(#[trigger] m.commands@[ci], *final(self), m)
                &&& forall|ci: int| 0 <= ci < m.commands@.len()
                    ==> command_content(#[trigger] m.commands@[ci], *final(self), m)
                &&& forall|nn: int| 0 <= nn < final(self).drawings@.len()
                        && (#[trigger] final(self).drawings@[nn]) is Resolved
                    ==> exists|ci: int| 0 <= ci < m.commands@.len()
                        && (#[trigger] m.commands@[ci]).node == nn
                &&& forall|ci: int, cj: int| 0 <= ci < cj < m.commands@.len()
                    ==> (#[trigger] m.commands@[ci]).node
                        < (#[trigger] m.commands@[cj]).node
            }),
    {
        match self.finish_remaining() {
            Ok(()) => {}
            Err(e) => {
                return Err(e);
            }
        }
        let mut out = CommittedMesh {
            points: Vec::new(),
            colors: Vec::new(),
            tex_coords: Vec::new(),
            indices: Vec::new(),
            commands: Vec::new(),
        };
        let mut n: usize = 0;
        let node_count = self.drawings.len();
        while n < node_count
            invariant
                self.wf(),
                frame_preserved(*old(self), *self),
                node_count == self.drawings@.len(),
                0 <= n <= node_count,
                committed_wf(out),
                forall|i: int| 0 <= i < self.drawings@.len()
                    ==> !((#[trigger] self.drawings@[i]) is Pending),
                forall|ci: int| 0 <= ci < out.commands@.len()
                    ==> command_ok(#[trigger] out.commands@[ci], *self, out),
                forall|ci: int| 0 <= ci < out.commands@.len()
                    ==> command_content(#[trigger] out.commands@[ci], *self, out),
                forall|ci: int| 0 <= ci < out.commands@.len()
                    ==> (#[trigger] out.commands@[ci]).node < n,
                forall|nn: int| 0 <= nn < n
                        && (#[trigger] self.drawings@[nn]) is Resolved
                    ==> exists|ci: int| 0 <= ci < out.commands@.len()
                        && (#[trigger] out.commands@[ci]).node == nn,
                forall|ci: int, cj: int| 0 <= ci < cj < out.commands@.len()
                    ==> (#[trigger] out.commands@[ci]).node
                        < (#[trigger] out.commands@[cj]).node,
            decreases node_count - n,
        {
            let maybe_res = match &self.drawings[n] {
                DrawingState::Resolved(res) => Some(*res),
                _ => None,
            };
            if let Some(res) = maybe_res {
                proof {
                    assert(resolved_wf(res, self.mesh));
                }
                let ox = match self.graph.composed_position(n, Axis::X) {
                    Some(v) => v,
                    None => {
                        return Err(DrawError::ArithmeticOverflow);
                    }
                };
                let oy = match self.graph.composed_position(n, Axis::Y) {
                    Some(v) => v,
                    None => {
                        return Err(DrawError::ArithmeticOverflow);
                    }
                };
                let oz = match self.graph.composed_position(n, Axis::Z) {
                    Some(v) => v,
                    None => {
                        return Err(DrawError::ArithmeticOverflow);
                    }
                };
                let src = res.vertex_ranges;
                let count = src.points.len();
                let vstart = out.points.len();
                let mut k: usize = 0;
                while k < count
                    invariant
                        self.wf(),
                        frame_preserved(*old(self), *self),
                        resolved_wf(res, self.mesh),
                        src == res.vertex_ranges,
                        count == src.points.spec_len(),
                        0 <= k <= count,
                        out.points@.len() == vstart + k,
                        committed_wf(out),
                        (n as int) < self.drawings@.len(),
                        self.drawings@[n as int] == DrawingState::Resolved(res),
                        self.graph.spec_composed_position(n as int, Axis::X)
                            == Some(ox as int),
                        self.graph.spec_composed_position(n as int, Axis::Y)
                            == Some(oy as int),
                        self.graph.spec_composed_position(n as int, Axis::Z)
                            == Some(oz as int),
                        forall|kk: int| 0 <= kk < k
                            ==> (#[trigger] out.points@[vstart + kk]).x
                                    == self.mesh.points@[src.points.start + kk].x + ox
                                && out.points@[vstart + kk].y
                                    == self.mesh.points@[src.points.start + kk].y + oy
                                && out.points@[vstart + kk].z
                                    == self.mesh.points@[src.points.start + kk].z + oz,
                        forall|ci: int| 0 <= ci < out.commands@.len()
                            ==> command_ok(#[trigger] out.commands@[ci], *self, out),
                        forall|ci: int| 0 <= ci < out.commands@.len()
                            ==> command_content(#[trigger] out.commands@[ci], *self, out),
                        forall|ci: int| 0 <= ci < out.commands@.len()
                            ==> (#[trigger] out.commands@[ci]).node < n,
                        forall|nn: int| 0 <= nn < n
                                && (#[trigger] self.drawings@[nn]) is Resolved
                            ==> exists|ci: int| 0 <= ci < out.commands@.len()
                                && (#[trigger] out.commands@[ci]).node == nn,
                        forall|ci: int, cj: int| 0 <= ci < cj < out.commands@.len()
                            ==> (#[trigger] out.commands@[ci]).node
                                < (#[trigger] out.commands@[cj]).node,
                    decreases count - k,
                {
                    let p = self.mesh.points[src.points.start + k];
                    let px = match p.x.checked_add(ox) {
                        Some(v) => v,
                        None => {
                            return Err(DrawError::ArithmeticOverflow);
                        }
                    };
                    let py = match p.y.checked_add(oy) {
                        Some(v) => v,
                        None => {
                            return Err(DrawError::ArithmeticOverflow);
                        }
                    };
                    let pz = match p.z.checked_add(oz) {
                        Some(v) => v,
                        None => {
                            return Err(DrawError::ArithmeticOverflow);
                        }
                    };
                    let color = if k < src.colors.len() {
                        self.mesh.colors[src.colors.start + k]
                    } else {
                        res.fill_color
                    };
                    let tex = if k < src.tex_coords.len() {
                        self.mesh.tex_coords[src.tex_coords.start + k]
                    } else {
                        Point2 { x: 0, y: 0 }
                    };
                    out.points.push(Point3 { x: px, y: py, z: pz });
                    out.colors.push(color);
                    out.tex_coords.push(tex);
                    k = k + 1;
                }
                let istart = out.indices.len();
                let icount = res.index_range.len();
                let mut j: usize = 0;
                while j < icount
                    invariant
                        self.wf(),
                        frame_preserved(*old(self), *self),
                        resolved_wf(res, self.mesh),
                        src == res.vertex_ranges,
                        count == src.points.spec_len(),
                        icount == res.index_range.spec_len(),
                        0 <= j <= icount,
                        out.points@.len() == vstart + count,
                        out.indices@.len() == istart + j,
                        committed_wf(out),
                        (n as int) < self.drawings@.len(),
                        self.drawings@[n as int] == DrawingState::Resolved(res),
                        self.graph.spec_composed_position(n as int, Axis::X)
                            == Some(ox as int),
                        self.graph.spec_composed_position(n as int, Axis::Y)
                            == Some(oy as int),
                        self.graph.spec_composed_position(n as int, Axis::Z)
                            == Some(oz as int),
                        forall|kk: int| 0 <= kk < count
                            ==> (#[trigger] out.points@[vstart + kk]).x
                                    == self.mesh.points@[src.points.start + kk].x + ox
                                && out.points@[vstart + kk].y
                                    == self.mesh.points@[src.points.start + kk].y + oy
                                && out.points@[vstart + kk].z
                                    == self.mesh.points@[src.points.start + kk].z + oz,
                        forall|jj: int| 0 <= jj < j
                            ==> (#[trigger] out.indices@[istart + jj]) == vstart
                                + self.mesh.indices@[res.index_range.start + jj]
                                - res.min_index,
                        forall|ci: int| 0 <= ci < out.commands@.len()
                            ==> command_ok(#[trigger] out.commands@[ci], *self, out),
                        forall|ci: int| 0 <= ci < out.commands@.len()
                            ==> command_content(#[trigger] out.commands@[ci], *self, out),
                        forall|ci: int| 0 <= ci < out.commands@.len()
                            ==> (#[trigger] out.commands@[ci]).node < n,
                        forall|nn: int| 0 <= nn < n
                                && (#[trigger] self.drawings@[nn]) is Resolved
                            ==> exists|ci: int| 0 <= ci < out.commands@.len()
                                && (#[trigger] out.commands@[ci]).node == nn,
                        forall|ci: int, cj: int| 0 <= ci < cj < out.commands@.len()
                            ==> (#[trigger] out.commands@[ci]).node
                                < (#[trigger] out.commands@[cj]).node,
                    decreases icount - j,
                {
                    let idx = self.mesh.indices[res.index_range.start + j];
                    proof {
                        assert(res.min_index
                            <= self.mesh.indices@[res.index_range.start + j as int]
                            && (self.mesh.indices@[res.index_range.start + j as int] as int)
                                < src.points.end);
                    }
                    let rel = idx - res.min_index;
                    let plen = out.points.len();
                    proof {
                        assert(rel < count);
                        assert(vstart + rel < plen);
                    }
                    out.indices.push(vstart + rel);
                    j = j + 1;
                }
                let cmd = DrawCommand {
                    node: n,
                    vertex_range: IndexRange { start: vstart, end: out.points.len() },
                    index_range: IndexRange { start: istart, end: out.indices.len() },
                };
                let ghost cmds_before = out.commands@;
                out.commands.push(cmd);
                proof {
                    assert forall|ci: int| 0 <= ci < out.commands@.len()
                        implies command_ok(#[trigger] out.commands@[ci], *self, out) by {
                        if ci < out.commands@.len() - 1 {
                            assert(command_ok(out.commands@[ci], *self, out));
                        } else {
                            assert(out.commands@[ci] == cmd);
                        }
                    }
                    assert forall|nn: int| 0 <= nn < n + 1
                            && (#[trigger] self.drawings@[nn]) is Resolved
                        implies exists|ci: int| 0 <= ci < out.commands@.len()
                            && (#[trigger] out.commands@[ci]).node == nn by {
                        if nn < n {
                            assert(exists|ci: int| 0 <= ci < cmds_before.len()
                                && (#[trigger] cmds_before[ci]).node == nn);
                            let wi = choose|ci: int| 0 <= ci < cmds_before.len()
                                && (#[trigger] cmds_before[ci]).node == nn;
                            assert(0 <= wi < out.commands@.len());
                            assert(out.commands@[wi] == cmds_before[wi]);
                            assert(out.commands@[wi].node == nn);
                        } else {
                            assert(out.commands@[out.commands@.len() - 1] == cmd);
                            assert(out.commands@[out.commands@.len() - 1].node == nn);
                        }
                    }
                    assert forall|ci: int| 0 <= ci < out.commands@.len()
                        implies command_content(#[trigger] out.commands@[ci], *self, out) by {
                        if ci < out.commands@.len() - 1 {
                            assert(command_content(out.commands@[ci], *self, out));
                        } else {
                            assert(out.commands@[ci] == cmd);
                            assert(cmd.vertex_range.spec_len() == count);
                            assert(cmd.index_range.spec_len() == icount);
                        }
                    }
                }
            }
            n = n + 1;
        }
        Ok(out)
    }
}

} // verus!
