//! A contour editing engine on the integer lattice: Bézier segments joined
//! into contours, continuity kept across edits, spatial queries over the
//! control points, a reversible log of edits, and the state of an editing
//! session that keeps the three together.

pub mod actions;
pub mod arith;
pub mod canvas;
pub mod continuity;
pub mod contours;
pub mod curves;
pub mod editor;
pub mod errors;
pub mod glyph_order;
pub mod glyphs;
pub mod handles;
pub mod invariants;
pub mod layout;
pub mod matrix;
pub mod outline;
pub mod panning;
pub mod points;
pub mod propagation;
pub mod range_query;
pub mod shape_tools;
pub mod shapes;
pub mod undo;
pub mod utils;
