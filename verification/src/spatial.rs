//! Spatial properties recorded on a graph node when a drawing resolves: a
//! local translation, an orientation, and a per-axis scale applied to the
//! node's subtree.

use vstd::prelude::*;
use crate::geom::{Point3, COORD_LIMIT};

verus! {

/// The local transform of a graph node. `position` translates the node's
/// geometry relative to its parent, `orientation` is an angle in arbitrary
/// fixed units around the z axis, and `scale` multiplies lengths per axis.
#[derive(Clone, Copy, Debug, PartialEq, Eq, Structural)]
pub struct Properties {
    pub position: Point3,
    pub orientation: i64,
    pub scale: Point3,
}

/// A node's position offset stays within the accepted input bound.
pub open spec fn position_in_input_range(p: Point3) -> bool {
    &&& -(COORD_LIMIT as int) <= p.x <= COORD_LIMIT as int
    &&& -(COORD_LIMIT as int) <= p.y <= COORD_LIMIT as int
    &&& -(COORD_LIMIT as int) <= p.z <= COORD_LIMIT as int
}

impl Properties {
    /// The identity transform: no offset, no rotation, unit scale.
    pub fn identity() -> (r: Properties)
        ensures
            r.position == (Point3 { x: 0i64, y: 0i64, z: 0i64 }),
            r.orientation == 0i64,
            r.scale == (Point3 { x: 1i64, y: 1i64, z: 1i64 }),
    {
        Properties {
            position: Point3 { x: 0, y: 0, z: 0 },
            orientation: 0,
            scale: Point3 { x: 1, y: 1, z: 1 },
        }
    }
}

impl Default for Properties {
    /// Same as [`Properties::identity`].
    fn default() -> (r: Properties)
        ensures
            r.position == (Point3 { x: 0i64, y: 0i64, z: 0i64 }),
            r.orientation == 0i64,
            r.scale == (Point3 { x: 1i64, y: 1i64, z: 1i64 }),
    {
        Properties {
            position: Point3 { x: 0, y: 0, z: 0 },
            orientation: 0,
            scale: Point3 { x: 1, y: 1, z: 1 },
        }
    }
}

} // verus!
