//! Skinned-mesh vertex data and the traversal of its non-zero influences.
//!
//! A mesh binds each vertex to up to [`MAX_INFLUENCES`] joints through a
//! fixed-width tuple of joint indices and joint weights.  Only slots with a
//! weight strictly greater than zero carry a contribution; zero-weight slots
//! commonly hold padding whose joint index is meaningless and must be
//! ignored.

use crate::aabb::SpecVec3;
use crate::aabb::Vec3i;
use vstd::prelude::*;

verus! {

/// Joint indices match the vertex format's 16-bit joint-index width.
pub type JointIndex = u16;

/// Number of weighted joint influences per vertex, fixed by the vertex
/// format.
pub const MAX_INFLUENCES: usize = 4;

/// Per-vertex attributes of a skinned mesh.
///
/// Each attribute is `None` when the host mesh lacks it or stores it with an
/// unexpected element type.  `joint_indices` and `joint_weights` hold
/// [`MAX_INFLUENCES`] entries per vertex, flattened in vertex order.  Joint
/// weights are unsigned fixed-point values; only being zero or non-zero
/// matters here.
pub struct MeshData {
    pub positions: Option<Vec<Vec3i>>,
    pub joint_indices: Option<Vec<JointIndex>>,
    pub joint_weights: Option<Vec<u32>>,
}

/// All three attributes are present and their lengths agree.  A mesh that
/// fails this has no usable skin data: influence traversal yields nothing.
pub open spec fn mesh_valid(m: MeshData) -> bool {
    &&& m.positions is Some
    &&& m.joint_indices is Some
    &&& m.joint_weights is Some
    &&& m.joint_indices->0@.len() == MAX_INFLUENCES * m.positions->0@.len()
    &&& m.joint_weights->0@.len() == MAX_INFLUENCES * m.positions->0@.len()
}

/// Number of influence slots of a valid mesh.
pub open spec fn slot_count(m: MeshData) -> int {
    MAX_INFLUENCES * m.positions->0@.len()
}

/// The slot carries a contribution: its weight is strictly positive.
pub open spec fn slot_active(m: MeshData, n: int) -> bool {
    m.joint_weights->0@[n] > 0
}

pub open spec fn slot_joint(m: MeshData, n: int) -> int {
    m.joint_indices->0@[n] as int
}

pub open spec fn slot_position(m: MeshData, n: int) -> SpecVec3 {
    m.positions->0@[n / (MAX_INFLUENCES as int)]@
}

/// One non-zero-weight binding of a vertex position to a joint.
pub struct SpecInfluence {
    pub position: SpecVec3,
    pub joint: int,
}

pub open spec fn influence_at(m: MeshData, n: int) -> SpecInfluence {
    SpecInfluence { position: slot_position(m, n), joint: slot_joint(m, n) }
}

/// The influences among the first `n` slots, in slot order.
pub open spec fn influences_prefix(m: MeshData, n: int) -> Seq<SpecInfluence>
    decreases n,
{
    if n <= 0 {
        Seq::empty()
    } else if slot_active(m, n - 1) {
        influences_prefix(m, n - 1).push(influence_at(m, n - 1))
    } else {
        influences_prefix(m, n - 1)
    }
}

/// Every influence of the mesh, in slot order; empty when the mesh has no
/// usable skin data.
pub open spec fn influences(m: MeshData) -> Seq<SpecInfluence> {
    if mesh_valid(m) {
        influences_prefix(m, slot_count(m))
    } else {
        Seq::empty()
    }
}

/// A longer slot prefix only appends influences.
pub proof fn lemma_influences_prefix_extends(m: MeshData, n1: int, n2: int)
    requires
        0 <= n1 <= n2,
    ensures
        influences_prefix(m, n1).len() <= influences_prefix(m, n2).len(),
        forall|i: int|
            0 <= i < influences_prefix(m, n1).len() ==> influences_prefix(m, n2)[i]
                == influences_prefix(m, n1)[i],
    decreases n2,
{
    if n1 < n2 {
        lemma_influences_prefix_extends(m, n1, n2 - 1);
    }
}

/// All three skin attributes are present with matching lengths.
pub fn mesh_has_skin_data(mesh: &MeshData) -> (r: bool)
    ensures
        r == mesh_valid(*mesh),
{
    match (&mesh.positions, &mesh.joint_indices, &mesh.joint_weights) {
        (Some(positions), Some(joint_indices), Some(joint_weights)) => {
            let num_vertices = positions.len();
            let ji_len = joint_indices.len();
            let jw_len = joint_weights.len();
            if num_vertices > usize::MAX / MAX_INFLUENCES {
                return false;
            }
            ji_len == num_vertices * MAX_INFLUENCES && jw_len == num_vertices * MAX_INFLUENCES
        },
        _ => false,
    }
}

/// One yielded influence: a vertex position bound to a joint with non-zero
/// weight.
pub struct Influence {
    pub position: Vec3i,
    pub joint_index: usize,
}

impl View for Influence {
    type V = SpecInfluence;

    open spec fn view(&self) -> SpecInfluence {
        SpecInfluence { position: self.position@, joint: self.joint_index as int }
    }
}

/// Iterator over all vertex influences with non-zero weight, in slot order.
///
/// The traversal is restartable: a fresh iterator starts at the first slot.
pub struct InfluenceIterator {
    pub slot: usize,
}

impl InfluenceIterator {
    pub fn new(mesh: &MeshData) -> (s: Self)
        ensures
            s.slot == 0,
    {
        let _ = mesh;
        InfluenceIterator { slot: 0 }
    }

    /// Yield the next influence, skipping slots with zero weight.
    pub fn next(&mut self, mesh: &MeshData) -> (r: Option<Influence>)
        requires
            mesh_valid(*mesh),
            old(self).slot <= slot_count(*mesh),
        ensures
            final(self).slot <= slot_count(*mesh),
            old(self).slot <= final(self).slot,
            match r {
                Some(inf) => {
                    &&& old(self).slot < final(self).slot
                    &&& slot_active(*mesh, final(self).slot - 1)
                    &&& inf@ == influence_at(*mesh, final(self).slot - 1)
                    &&& influences_prefix(*mesh, final(self).slot as int) == influences_prefix(
                        *mesh,
                        old(self).slot as int,
                    ).push(inf@)
                },
                None => {
                    &&& final(self).slot == slot_count(*mesh)
                    &&& influences_prefix(*mesh, slot_count(*mesh)) == influences_prefix(
                        *mesh,
                        old(self).slot as int,
                    )
                },
            },
    {
        let positions: &Vec<Vec3i> = match &mesh.positions {
            Some(p) => p,
            None => unreached(),
        };
        let joint_indices: &Vec<JointIndex> = match &mesh.joint_indices {
            Some(ji) => ji,
            None => unreached(),
        };
        let joint_weights: &Vec<u32> = match &mesh.joint_weights {
            Some(jw) => jw,
            None => unreached(),
        };
        let count = joint_weights.len();
        let mut n = self.slot;
        while n < count
            invariant
                mesh_valid(*mesh),
                count == slot_count(*mesh),
                old(self).slot <= n <= count,
                joint_weights@ == mesh.joint_weights->0@,
                joint_indices@ == mesh.joint_indices->0@,
                positions@ == mesh.positions->0@,
                influences_prefix(*mesh, n as int) == influences_prefix(
                    *mesh,
                    old(self).slot as int,
                ),
            decreases count - n,
        {
            let weight = joint_weights[n];
            if weight > 0 {
                let influence = Influence {
                    position: positions[n / MAX_INFLUENCES],
                    joint_index: joint_indices[n] as usize,
                };
                self.slot = n + 1;
                return Some(influence);
            }
            n = n + 1;
        }
        self.slot = count;
        None
    }
}

} // verus!
