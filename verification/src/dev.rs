//! Support types for development harnesses: randomized-scene drivers and a
//! reference CPU skinning path use these to report their errors and to seed
//! deterministic per-joint animation.
//!
//! The harnesses themselves live with the host embedding; only the plain
//! data they exchange is defined here.

use std::hash::Hasher;
use vstd::prelude::*;

verus! {

/// Why a randomized test mesh could not be built.
#[derive(Clone, Copy, Debug, PartialEq, Eq, Structural)]
pub enum RandomMeshError {
    /// The requested joint count does not fit the joint-index width.
    InvalidNumJoints,
}

/// The kind of randomized test mesh to build: every vertex bound rigidly to
/// one joint, or soft-skinned with several weighted influences.
#[derive(Clone, Copy, Debug, PartialEq, Eq, Structural)]
pub enum RandomSkinnedMeshType {
    Hard,
    Soft { num_tris: usize },
}

/// Why a reference CPU skinning of a mesh failed.
#[derive(Clone, Copy, Debug, PartialEq, Eq, Structural)]
pub enum SkinError {
    MismatchedArrayLengths,
    InvalidJointIndex,
    UnknownLayout,
    Unsupported,
}

/// An infinite timeline of noise, where each item of noise is one unit of
/// time apart; fully determined by its seed.
#[derive(Clone, Copy, Debug, PartialEq, Eq, Structural)]
pub struct NoiseTimeline {
    pub seed: u64,
}

/// Drives a deterministic pseudo-random animation of one joint.
#[derive(Clone, Copy, Debug, PartialEq, Eq, Structural)]
pub struct RandomMeshAnimation {
    pub noise: NoiseTimeline,
}

impl RandomMeshAnimation {
    pub fn new(seed: u64) -> (s: Self)
        ensures
            s.noise.seed == seed,
    {
        RandomMeshAnimation { noise: NoiseTimeline { seed } }
    }
}

/// Relies on `core::hash::Hash::hash`: feeds the value's bytes to the
/// hasher.  Which bytes a value writes is unspecified, so nothing is
/// promised of the hasher's new state.
#[verifier::external_body]
fn write_value<T: core::hash::Hash>(
    v: &T,
    hasher: &mut std::collections::hash_map::DefaultHasher,
) {
    v.hash(hasher)
}

/// Hash a single value.
///
/// The digest is stable within one process but otherwise unspecified.
pub fn hash<T: core::hash::Hash>(v: T) -> u64 {
    let mut hasher = std::collections::hash_map::DefaultHasher::new();
    write_value(&v, &mut hasher);
    hasher.finish()
}

} // verus!
