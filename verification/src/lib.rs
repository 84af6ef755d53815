//! Core of a tile-map editor: grid geometry on the integer pixel lattice,
//! exact texture coordinates, and the painted-cell state.

pub mod canvas;
pub mod geometry;
pub mod ratio;
pub mod tile_map;
pub mod tile_set;
pub mod uv;
