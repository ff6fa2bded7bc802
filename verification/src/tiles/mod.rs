//! Tiles: animations, tilesets and the layout of tile textures.
pub mod animation;
pub mod texture_holder;
pub mod tileset;
