//! A verified canvas engine for a pixel-art drawing tool.
//!
//! The engine is the pure core of the tool: a fixed-size multi-layer
//! boolean pixel grid, shape rasterization (pen stamping, lines,
//! rectangle outlines, circles, hexagons), snapshot-based undo/redo,
//! and a greedy rectangle-decomposition exporter that serializes a
//! bitmap as a textual drawing routine.  Everything that touches a
//! window, a texture or an input device lives outside this crate.

pub mod export;
pub mod grid;
pub mod history;
pub mod raster;
pub mod state;
pub mod strokes;
pub mod text;
