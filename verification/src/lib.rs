//! A 2D shape batching layer: per frame, callers declare rectangles, ovals and
//! textured sprites through builders; the library groups them into per-geometry
//! instance batches, generates the shared base geometry, packs source bitmaps
//! into a texture atlas, and emits an ordered frame plan that a thin GPU layer
//! can submit as draw calls.

pub mod atlas;
pub mod batch;
pub mod geometry;
pub mod instance;
pub mod renderer;
pub mod shapes;
