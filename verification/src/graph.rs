//! The geometry graph: an arena of transform nodes with integer-index parent
//! links. Nodes are only ever created as children of existing nodes (or as
//! the root), so every parent index is smaller than its child's and the graph
//! is a tree by construction.

use vstd::prelude::*;
use crate::geom::{Axis, spec_axis_of, axis_of};
use crate::spatial;
use crate::spatial::position_in_input_range;

verus! {

/// One transform node: an optional parent link and the node's local spatial
/// properties.
#[derive(Clone, Copy, Debug)]
pub struct Node {
    pub parent: Option<usize>,
    pub spatial: spatial::Properties,
}

/// The arena of transform nodes. Index zero is the root.
#[derive(Clone, Debug)]
pub struct GeometryGraph {
    pub nodes: Vec<Node>,
}

/// Add within the `i64` range, or give up.
pub open spec fn spec_checked_add(a: Option<int>, b: int) -> Option<int> {
    match a {
        Some(v) => if i64::MIN <= v + b <= i64::MAX {
            Some(v + b)
        } else {
            None
        },
        None => None,
    }
}

/// Multiply within the `i64` range, or give up.
pub open spec fn spec_checked_mul(a: Option<int>, b: int) -> Option<int> {
    match a {
        Some(v) => if i64::MIN <= v * b <= i64::MAX {
            Some(v * b)
        } else {
            None
        },
        None => None,
    }
}

/// An executable optional value, viewed as its mathematical counterpart.
pub open spec fn spec_opt_int(r: Option<i64>) -> Option<int> {
    match r {
        Some(v) => Some(v as int),
        None => None,
    }
}

impl GeometryGraph {
    /// Parent links point strictly downward in index order, and every stored
    /// position offset lies within the accepted input bound.
    pub open spec fn wf(self) -> bool {
        &&& forall|i: int| 0 <= i < self.nodes@.len()
            ==> ((#[trigger] self.nodes@[i]).parent matches Some(p) ==> (p as int) < i)
        &&& forall|i: int| 0 <= i < self.nodes@.len()
            ==> position_in_input_range((#[trigger] self.nodes@[i]).spatial.position)
    }

    /// A graph holding only the root node with the identity transform.
    pub fn new() -> (r: GeometryGraph)
        ensures
            r.nodes@.len() == 1,
            r.nodes@[0].parent is None,
            r.nodes@[0].spatial == (spatial::Properties {
                position: (crate::geom::Point3 { x: 0i64, y: 0i64, z: 0i64 }),
                orientation: 0i64,
                scale: (crate::geom::Point3 { x: 1i64, y: 1i64, z: 1i64 }),
            }),
            r.wf(),
    {
        let mut nodes: Vec<Node> = Vec::new();
        nodes.push(Node { parent: None, spatial: spatial::Properties::identity() });
        GeometryGraph { nodes }
    }

    /// The number of nodes, the root included.
    pub fn len(&self) -> (r: usize)
        ensures
            r == self.nodes@.len(),
    {
        self.nodes.len()
    }

    /// Create a node as a child of `parent` with the given initial
    /// transform, and return its index.
    pub fn add_node(&mut self, parent: usize, initial_transform: spatial::Properties)
        -> (ix: usize)
        requires
            old(self).wf(),
            parent < old(self).nodes@.len(),
            position_in_input_range(initial_transform.position),
        ensures
            final(self).wf(),
            ix == old(self).nodes@.len(),
            final(self).nodes@ == old(self).nodes@.push(Node {
                parent: Some(parent),
                spatial: initial_transform,
            }),
    {
        let ix = self.nodes.len();
        self.nodes.push(Node { parent: Some(parent), spatial: initial_transform });
        ix
    }

    /// Record the spatial properties a resolved drawing determined for node
    /// `n`. The parent link is untouched.
    pub fn set_node_properties(&mut self, n: usize, props: spatial::Properties)
        requires
            old(self).wf(),
            n < old(self).nodes@.len(),
            position_in_input_range(props.position),
        ensures
            final(self).wf(),
            final(self).nodes@ == old(self).nodes@.update(n as int, Node {
                parent: old(self).nodes@[n as int].parent,
                spatial: props,
            }),
    {
        let parent = self.nodes[n].parent;
        self.nodes.set(n, Node { parent, spatial: props });
    }

    /// The spatial properties stored on node `n`.
    pub fn node_spatial(&self, n: usize) -> (r: spatial::Properties)
        requires
            n < self.nodes@.len(),
        ensures
            r == self.nodes@[n as int].spatial,
    {
        self.nodes[n].spatial
    }

    /// The composed translation of node `n` along `axis`: the node's own
    /// offset plus all ancestor offsets, or `None` where a partial sum leaves
    /// the `i64` range.
    pub open spec fn spec_composed_position(self, n: int, axis: Axis) -> Option<int>
        decreases n,
    {
        if 0 <= n < self.nodes@.len() {
            let node = self.nodes@[n];
            let own = spec_axis_of(node.spatial.position, axis);
            match node.parent {
                Some(p) => if (p as int) < n {
                    spec_checked_add(self.spec_composed_position(p as int, axis), own)
                } else {
                    Some(own)
                },
                None => Some(own),
            }
        } else {
            Some(0)
        }
    }

    /// The composed scale factor of node `n` along `axis`: the product of the
    /// node's own scale and all ancestor scales, or `None` where a partial
    /// product leaves the `i64` range.
    pub open spec fn spec_composed_scale(self, n: int, axis: Axis) -> Option<int>
        decreases n,
    {
        if 0 <= n < self.nodes@.len() {
            let node = self.nodes@[n];
            let own = spec_axis_of(node.spatial.scale, axis);
            match node.parent {
                Some(p) => if (p as int) < n {
                    spec_checked_mul(self.spec_composed_scale(p as int, axis), own)
                } else {
                    Some(own)
                },
                None => Some(own),
            }
        } else {
            Some(1)
        }
    }

    /// Compose the translation of node `n` along `axis` over its parent
    /// chain.
    pub fn composed_position(&self, n: usize, axis: Axis) -> (r: Option<i64>)
        requires
            self.wf(),
            n < self.nodes@.len(),
        ensures
            spec_opt_int(r) == self.spec_composed_position(n as int, axis),
        decreases n,
    {
        let own = axis_of(self.nodes[n].spatial.position, axis);
        match self.nodes[n].parent {
            Some(p) => {
                match self.composed_position(p, axis) {
                    Some(v) => v.checked_add(own),
                    None => None,
                }
            }
            None => Some(own),
        }
    }

    /// The composed orientation of node `n`: the node's own angle plus all
    /// ancestor angles, or `None` where a partial sum leaves the `i64`
    /// range.
    pub open spec fn spec_composed_orientation(self, n: int) -> Option<int>
        decreases n,
    {
        if 0 <= n < self.nodes@.len() {
            let node = self.nodes@[n];
            let own = node.spatial.orientation as int;
            match node.parent {
                Some(p) => if (p as int) < n {
                    spec_checked_add(self.spec_composed_orientation(p as int), own)
                } else {
                    Some(own)
                },
                None => Some(own),
            }
        } else {
            Some(0)
        }
    }

    /// Compose the orientation of node `n` over its parent chain.
    pub fn composed_orientation(&self, n: usize) -> (r: Option<i64>)
        requires
            self.wf(),
            n < self.nodes@.len(),
        ensures
            spec_opt_int(r) == self.spec_composed_orientation(n as int),
        decreases n,
    {
        let own = self.nodes[n].spatial.orientation;
        match self.nodes[n].parent {
            Some(p) => {
                match self.composed_orientation(p) {
                    Some(v) => v.checked_add(own),
                    None => None,
                }
            }
            None => Some(own),
        }
    }

    /// The fully composed transform of node `n`: its translation,
    /// orientation and scale with the whole parent chain applied, or `None`
    /// where any composition leaves the machine integer range.
    pub fn node_transform(&self, n: usize) -> (r: Option<spatial::Properties>)
        requires
            self.wf(),
            n < self.nodes@.len(),
        ensures
            r matches Some(t) ==> ({
                &&& Some(t.position.x as int) == self.spec_composed_position(n as int, Axis::X)
                &&& Some(t.position.y as int) == self.spec_composed_position(n as int, Axis::Y)
                &&& Some(t.position.z as int) == self.spec_composed_position(n as int, Axis::Z)
                &&& Some(t.orientation as int) == self.spec_composed_orientation(n as int)
                &&& Some(t.scale.x as int) == self.spec_composed_scale(n as int, Axis::X)
                &&& Some(t.scale.y as int) == self.spec_composed_scale(n as int, Axis::Y)
                &&& Some(t.scale.z as int) == self.spec_composed_scale(n as int, Axis::Z)
            }),
            r is None ==> (self.spec_composed_position(n as int, Axis::X) is None
                || self.spec_composed_position(n as int, Axis::Y) is None
                || self.spec_composed_position(n as int, Axis::Z) is None
                || self.spec_composed_orientation(n as int) is None
                || self.spec_composed_scale(n as int, Axis::X) is None
                || self.spec_composed_scale(n as int, Axis::Y) is None
                || self.spec_composed_scale(n as int, Axis::Z) is None),
    {
        let px = self.composed_position(n, Axis::X);
        let py = self.composed_position(n, Axis::Y);
        let pz = self.composed_position(n, Axis::Z);
        let ori = self.composed_orientation(n);
        let sx = self.composed_scale(n, Axis::X);
        let sy = self.composed_scale(n, Axis::Y);
        let sz = self.composed_scale(n, Axis::Z);
        match (px, py, pz, ori, sx, sy, sz) {
            (Some(px), Some(py), Some(pz), Some(ori), Some(sx), Some(sy), Some(sz)) => {
                Some(spatial::Properties {
                    position: crate::geom::Point3 { x: px, y: py, z: pz },
                    orientation: ori,
                    scale: crate::geom::Point3 { x: sx, y: sy, z: sz },
                })
            }
            _ => None,
        }
    }

    /// Compose the scale of node `n` along `axis` over its parent chain.
    pub fn composed_scale(&self, n: usize, axis: Axis) -> (r: Option<i64>)
        requires
            self.wf(),
            n < self.nodes@.len(),
        ensures
            spec_opt_int(r) == self.spec_composed_scale(n as int, axis),
        decreases n,
    {
        let own = axis_of(self.nodes[n].spatial.scale, axis);
        match self.nodes[n].parent {
            Some(p) => {
                match self.composed_scale(p, axis) {
                    Some(v) => v.checked_mul(own),
                    None => None,
                }
            }
            None => Some(own),
        }
    }
}

} // verus!
