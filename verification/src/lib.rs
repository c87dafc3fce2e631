//! Conservative axis-aligned bounding volumes for skinned (joint-deformed)
//! meshes.
//!
//! A skinned mesh is deformed every frame by the current pose of its joints,
//! so its exact bounding box would have to be recomputed from every vertex.
//! This crate instead extracts, once per mesh, one joint-space bounding box
//! per joint that influences at least one vertex.  Every frame, each of those
//! boxes is mapped through the joint's current transform and the results are
//! merged, giving a box that is guaranteed to contain the skinned shape at a
//! cost linear in the number of joints rather than the number of vertices.
//!
//! Coordinates and transforms are fixed-point values carried in `i64`, so all
//! arithmetic is exact and the containment guarantees are proved, not
//! approximate.  Converting a host's floating-point data into this
//! representation is the embedder's concern.

pub mod aabb;
pub mod affine;
pub mod asset;
pub mod cache;
pub mod dev;
pub mod mesh;
pub mod update;
