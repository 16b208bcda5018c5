//! Availability resolution for implicitly tiled 3D tilesets: packed
//! availability bits, Morton indexing, subtree decoding and the walk across
//! subtree layers; with the tileset records, resources and caches around it.

pub mod bits;
pub mod cache;
pub mod error;
pub mod morton;
pub mod resolver;
pub mod resource;
pub mod schema;
pub mod style;
pub mod subtree;
pub mod text;
pub mod tiling;
pub mod tileset;
pub mod uri;
