//! Batch builder and indirect-draw descriptor generator.
//!
//! Groups scene objects into batches keyed by mesh and texture type, merges
//! per-mesh vertex/index data into combined buffers with re-based indices,
//! packs per-instance transform and color data into linear arrays, and emits
//! indexed indirect-draw descriptors with running instance-base accounting.

pub mod batching;
pub mod indirect;
pub mod shapes;
