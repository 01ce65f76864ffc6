//! A deferred-drawing geometry compiler.
//!
//! Drawing calls create nodes in a transform graph together with builder
//! handles that accumulate properties (corners, colors, dimensions) without
//! committing any geometry. Geometry is resolved lazily: an explicit finish,
//! or a dimension query that needs a node's extent, converts the accumulated
//! properties into vertex and index data in a shared intermediary mesh and
//! records the node's spatial properties in the graph. At frame end the graph
//! and the mesh flatten into one committed mesh ready for upload.

pub mod color;
pub mod dimension;
pub mod draw;
pub mod drawing;
pub mod flatten;
pub mod geom;
pub mod graph;
pub mod mesh;
pub mod primitive;
pub mod spatial;
pub mod theme;
pub mod vertices;
