//! Process-wide default styling, read whenever a drawing leaves a property
//! unset at resolution time.

use vstd::prelude::*;
use crate::color::Color;

verus! {

/// The primitive kinds a theme knows defaults for.
#[derive(Clone, Copy, Debug, PartialEq, Eq, Structural)]
pub enum Primitive {
    Quad,
    Polygon,
}

/// Default styling values: a fill color per primitive kind, one stroke color,
/// and one stroke weight. Fixed at draw-context construction.
#[derive(Clone, Copy, Debug, PartialEq, Eq, Structural)]
pub struct Theme {
    pub quad_fill: Color,
    pub polygon_fill: Color,
    pub stroke: Color,
    pub stroke_weight: i64,
}

/// The fill color the theme prescribes for the given primitive kind.
pub open spec fn spec_fill_color(theme: Theme, kind: Primitive) -> Color {
    match kind {
        Primitive::Quad => theme.quad_fill,
        Primitive::Polygon => theme.polygon_fill,
    }
}

impl Theme {
    /// The fill color for the given primitive kind.
    pub fn fill_color(&self, kind: Primitive) -> (r: Color)
        ensures
            r == spec_fill_color(*self, kind),
    {
        match kind {
            Primitive::Quad => self.quad_fill,
            Primitive::Polygon => self.polygon_fill,
        }
    }
}

impl Default for Theme {
    /// An opaque white fill for every primitive kind, a black stroke, and a
    /// stroke weight of one unit.
    fn default() -> (r: Theme)
        ensures
            r.quad_fill == (Color { red: 255u8, green: 255u8, blue: 255u8, alpha: 255u8 }),
            r.polygon_fill == (Color { red: 255u8, green: 255u8, blue: 255u8, alpha: 255u8 }),
            r.stroke == (Color { red: 0u8, green: 0u8, blue: 0u8, alpha: 255u8 }),
            r.stroke_weight == 1i64,
    {
        Theme {
            quad_fill: Color { red: 255, green: 255, blue: 255, alpha: 255 },
            polygon_fill: Color { red: 255, green: 255, blue: 255, alpha: 255 },
            stroke: Color { red: 0, green: 0, blue: 0, alpha: 255 },
            stroke_weight: 1,
        }
    }
}

} // verus!
