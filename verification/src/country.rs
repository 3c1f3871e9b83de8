//! Large-scale world tiles: deterministic structure placements and path
//! graphs, generated once per tile and shared by every chunk that overlaps
//! the tile.

pub mod country_cache;
pub mod country_data;
