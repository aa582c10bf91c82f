//! Conversion of geometries into sets of hexagonal grid cells, and the other
//! decisions of a command-line front-end to the H3 grid.
//!
//! A geometry (points, lines, polygons and their collections) is turned into
//! the set of cells that represent it at a chosen resolution: points by a
//! direct lookup, lines by plotting their segments on the grid, areas by
//! tiling them under a containment mode (`convert`, stated by `model`, with
//! its properties in `laws`). Besides: paths through sequences of cells
//! (`path`), reading and decoding grid indexes (`index`, `text`).
//!
//! The grid itself (lookups, plotting, tiling, paths) is the grid-indexing
//! crate's; `outside` and `index` state what is relied on from it.

pub mod convert;
pub mod coord;
pub mod geometry;
pub mod index;
pub mod laws;
pub mod model;
pub mod outside;
pub mod path;
pub mod text;
