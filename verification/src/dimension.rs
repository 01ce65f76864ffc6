//! Dimension properties of a drawing: per axis, either unset, an absolute
//! length, or "the length of another node", resolved on demand.

use vstd::prelude::*;
use crate::geom::COORD_LIMIT;

verus! {

/// One requested length along an axis.
#[derive(Clone, Copy, Debug, PartialEq, Eq, Structural)]
pub enum Dimension {
    /// An explicit length.
    Absolute(i64),
    /// The untransformed length of the node with the given index along the
    /// same axis, measured when this drawing resolves.
    Of(usize),
}

/// The dimensions requested for a drawing, each axis independent and unset
/// until a setter supplies it.
#[derive(Clone, Copy, Debug, PartialEq, Eq, Structural)]
pub struct Properties {
    pub x: Option<Dimension>,
    pub y: Option<Dimension>,
    pub z: Option<Dimension>,
}

/// An absolute dimension request is within the accepted input bound.
pub open spec fn dimension_in_input_range(d: Dimension) -> bool {
    match d {
        Dimension::Absolute(v) => 0 <= v <= COORD_LIMIT,
        Dimension::Of(_) => true,
    }
}

/// All set dimension requests are within the accepted input bound.
pub open spec fn properties_in_input_range(p: Properties) -> bool {
    &&& (p.x matches Some(d) ==> dimension_in_input_range(d))
    &&& (p.y matches Some(d) ==> dimension_in_input_range(d))
    &&& (p.z matches Some(d) ==> dimension_in_input_range(d))
}

impl Properties {
    /// No dimension requested on any axis.
    pub fn unset() -> (r: Properties)
        ensures
            r.x is None,
            r.y is None,
            r.z is None,
    {
        Properties { x: None, y: None, z: None }
    }
}

impl Default for Properties {
    /// Same as [`Properties::unset`]: no dimension requested on any axis.
    fn default() -> (r: Properties)
        ensures
            r.x is None,
            r.y is None,
            r.z is None,
    {
        Properties { x: None, y: None, z: None }
    }
}

} // verus!
