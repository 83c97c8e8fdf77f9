//! Verified core of an isometric tile simulation built around third-party
//! plugin packages: manifest parsing and contribution resolution, drawable
//! normalization with a deduplicating texture catalog, and a tile grid with
//! collision-checked entity placement.

pub mod geometry;
pub mod text;
pub mod xml;
pub mod plugin;
pub mod drawable;
pub mod pixel;
pub mod pool;
pub mod tilemap;
