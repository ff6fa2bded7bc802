//! Helpers: storage of loaded assets and operations on std collections.
pub mod asset_storage;
pub mod collections;
