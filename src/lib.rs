//! A falling-sand cellular automaton: a grid of material cells, the
//! per-material update rules, the tick scheduler and the brush that paints
//! into the grid.
//!
//! - `geometry`: grid positions and Bresenham lines.
//! - `mass`: fixed-point fluid mass and the two-cell column split.
//! - `material`, `registry`: the cell type tagged union and the material tables.
//! - `color`, `display`: names and colours of cells.
//! - `random`: the random source the rules draw from.
//! - `grid`: cells, per-tick update flags, bounds and neighbourhoods.
//! - `rules`: what one cell does to the grid in one tick.
//! - `world`: the fixed visitation order, the tick and the pixel buffer.
//! - `brush`: brush shapes and painting along a stroke.
pub mod brush;
pub mod color;
pub mod display;
pub mod geometry;
pub mod grid;
pub mod mass;
pub mod material;
pub mod random;
pub mod registry;
pub mod rules;
pub mod world;
