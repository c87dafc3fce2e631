//! Extraction of per-joint, joint-space bounding boxes from a skinned mesh.
//!
//! The builder walks every non-zero influence of a mesh, maps each vertex
//! position into its joint's local space through that joint's inverse bind
//! transform, and grows one optional box per joint.  A final compaction keeps
//! only the joints that received at least one influence, yielding a dense box
//! list and a parallel list mapping each box back to its joint index.

use crate::aabb::aabb_in;
use crate::aabb::aabb_wf;
use crate::aabb::opt_aabb_view;
use crate::aabb::spec_merge_point;
use crate::aabb::svec_in;
use crate::aabb::merge;
use crate::aabb::PackedAabb3d;
use crate::aabb::SpecAabb3d;
use crate::aabb::SpecVec3;
use crate::affine::affine_in;
use crate::affine::spec_apply;
use crate::affine::transform_point;
use crate::affine::Affine3i;
use crate::affine::SpecAffine3;
use crate::affine::INPUT_LIMIT;
use crate::affine::JOINT_BOX_LIMIT;
use crate::mesh::influence_at;
use crate::mesh::influences;
use crate::mesh::influences_prefix;
use crate::mesh::lemma_influences_prefix_extends;
use crate::mesh::mesh_has_skin_data;
use crate::mesh::mesh_valid;
use crate::mesh::slot_active;
use crate::mesh::slot_count;
use crate::mesh::InfluenceIterator;
use crate::mesh::JointIndex;
use crate::mesh::MeshData;
use crate::mesh::SpecInfluence;
use vstd::pervasive::VecAdditionalExecFns;
use vstd::prelude::*;

verus! {

/// Largest joint count addressable by the 16-bit joint-index width of the
/// vertex format; a skin with more joints is rejected outright.
pub const MAX_JOINT_COUNT: usize = 65536;

/// Identity of the exact (mesh, inverse-bind-pose-set) pair an asset was
/// built from; equality on this pair is the deduplication key.
#[derive(Clone, Copy, Debug, PartialEq, Eq, Structural)]
pub struct SkinnedAabbSourceAssets {
    pub mesh: u64,
    pub inverse_bindposes: u64,
}

/// The ordered inverse bind transforms of a skin, one per joint.
#[derive(Debug)]
pub struct SkinnedMeshInverseBindposes {
    pub transforms: Vec<Affine3i>,
}

impl View for SkinnedMeshInverseBindposes {
    type V = Seq<SpecAffine3>;

    open spec fn view(&self) -> Seq<SpecAffine3> {
        self.transforms@.map_values(|t: Affine3i| t@)
    }
}

/// Every transform of the set stays within the raw input limit.
pub open spec fn bindposes_in_limit(bindposes: Seq<SpecAffine3>) -> bool {
    forall|i: int|
        0 <= i < bindposes.len() ==> affine_in(
            #[trigger] bindposes[i],
            INPUT_LIMIT as int,
            INPUT_LIMIT as int,
        )
}

/// Every vertex position of the mesh stays within the raw input limit.
pub open spec fn mesh_in_limit(m: MeshData) -> bool {
    m.positions is Some ==> forall|i: int|
        0 <= i < m.positions->0@.len() ==> svec_in(#[trigger] m.positions->0@[i]@, INPUT_LIMIT as int)
}

/// A shared, immutable bounds asset: one joint-space box per joint that
/// influences at least one vertex.
#[derive(Debug)]
pub struct SkinnedAabbAsset {
    /// The source assets, kept so that scene objects can reuse an existing
    /// asset by searching for matching sources.
    pub source: SkinnedAabbSourceAssets,
    /// Joint-space box of each influenced joint, dense, in joint order.
    pub aabbs: Vec<PackedAabb3d>,
    /// Mapping from `aabbs` index to the joint's index within the skin.
    pub aabb_index_to_joint_index: Vec<JointIndex>,
}

impl SkinnedAabbAsset {
    pub fn aabb(&self, aabb_index: usize) -> (r: PackedAabb3d)
        requires
            aabb_index < self.aabbs@.len(),
        ensures
            r == self.aabbs@[aabb_index as int],
    {
        self.aabbs[aabb_index]
    }

    pub fn num_aabbs(&self) -> (r: usize)
        ensures
            r == self.aabbs@.len(),
    {
        self.aabbs.len()
    }
}

/// The joint-space images of the influences bound to joint `j`, in influence
/// order.
pub open spec fn joint_points(s: Seq<SpecInfluence>, bindposes: Seq<SpecAffine3>, j: int) -> Seq<
    SpecVec3,
>
    decreases s.len(),
{
    if s.len() == 0 {
        Seq::empty()
    } else {
        let rest = joint_points(s.drop_last(), bindposes, j);
        if s.last().joint == j {
            rest.push(spec_apply(bindposes[j], s.last().position))
        } else {
            rest
        }
    }
}

/// The smallest box containing all the points, or nothing for no points.
pub open spec fn box_of_points(pts: Seq<SpecVec3>) -> Option<SpecAabb3d>
    decreases pts.len(),
{
    if pts.len() == 0 {
        None
    } else {
        Some(spec_merge_point(box_of_points(pts.drop_last()), pts.last()))
    }
}

/// The joint-space bounding box of joint `j`: the smallest box containing
/// every influence of the mesh bound to `j`, mapped through `j`'s inverse
/// bind transform.
pub open spec fn joint_box(m: MeshData, bindposes: Seq<SpecAffine3>, j: int) -> Option<SpecAabb3d> {
    box_of_points(joint_points(influences(m), bindposes, j))
}

/// Every influence of the mesh names a joint below `num_joints`.
pub open spec fn joints_in_range(m: MeshData, num_joints: int) -> bool {
    forall|i: int|
        0 <= i < influences(m).len() ==> #[trigger] influences(m)[i].joint < num_joints
}

/// The asset's content is exactly what the builder owes the source data:
/// one box per influenced joint, holding that joint's joint-space bounding
/// box, listed in increasing joint order.
pub open spec fn asset_matches(
    asset: SkinnedAabbAsset,
    m: MeshData,
    bindposes: Seq<SpecAffine3>,
) -> bool {
    let k = asset.aabbs@.len() as int;
    let map = asset.aabb_index_to_joint_index@;
    &&& map.len() == k
    &&& forall|i: int| 0 <= i < k ==> (#[trigger] map[i]) < bindposes.len()
    &&& forall|i: int|
        0 <= i < k ==> joint_box(m, bindposes, #[trigger] map[i] as int) == Some(asset.aabbs@[i]@)
    &&& forall|i1: int, i2: int| 0 <= i1 < i2 < k ==> map[i1] < map[i2]
    &&& forall|j: int|
        0 <= j < bindposes.len() && (#[trigger] joint_box(m, bindposes, j)) is Some ==> exists|i: int|
            0 <= i < k && #[trigger] map[i] as int == j
}

/// Structural well-formedness of an asset: the two lists are parallel and
/// every box is well-formed and within the joint-space coordinate limit.
pub open spec fn asset_wf(asset: SkinnedAabbAsset) -> bool {
    &&& asset.aabb_index_to_joint_index@.len() == asset.aabbs@.len()
    &&& forall|i: int|
        0 <= i < asset.aabbs@.len() ==> aabb_wf(#[trigger] asset.aabbs@[i]@) && aabb_in(
            asset.aabbs@[i]@,
            JOINT_BOX_LIMIT as int,
        )
}

/// Why an asset build was abandoned; no partial asset is ever produced.
#[derive(Clone, Copy, Debug, PartialEq, Eq, Structural)]
pub enum SkinnedAabbError {
    /// An influence named a joint at or beyond the inverse-bind-pose count.
    InvalidJointIndex,
    /// The skin has more joints than the joint-index width can address.
    TooManyJoints,
}

proof fn lemma_joint_points_push(
    s: Seq<SpecInfluence>,
    bindposes: Seq<SpecAffine3>,
    x: SpecInfluence,
    j: int,
)
    ensures
        joint_points(s.push(x), bindposes, j) == if x.joint == j {
            joint_points(s, bindposes, j).push(spec_apply(bindposes[j], x.position))
        } else {
            joint_points(s, bindposes, j)
        },
{
    assert(s.push(x).drop_last() =~= s);
    assert(s.push(x).last() == x);
}

proof fn lemma_box_of_points_push(pts: Seq<SpecVec3>, q: SpecVec3)
    ensures
        box_of_points(pts.push(q)) == Some(spec_merge_point(box_of_points(pts), q)),
{
    assert(pts.push(q).drop_last() =~= pts);
    assert(pts.push(q).last() == q);
}

/// Every point of a point list lies inside the list's bounding box.
pub proof fn lemma_box_of_points_contains(pts: Seq<SpecVec3>, i: int)
    requires
        0 <= i < pts.len(),
    ensures
        box_of_points(pts) is Some,
        crate::aabb::aabb_contains_point(box_of_points(pts)->0, pts[i]),
    decreases pts.len(),
{
    if i < pts.len() - 1 {
        lemma_box_of_points_contains(pts.drop_last(), i);
    }
}

/// The image of every influence of joint `j` appears among that joint's
/// points.
pub proof fn lemma_joint_points_member(
    s: Seq<SpecInfluence>,
    bindposes: Seq<SpecAffine3>,
    i: int,
)
    requires
        0 <= i < s.len(),
    ensures
        exists|p: int|
            0 <= p < joint_points(s, bindposes, s[i].joint).len() && joint_points(
                s,
                bindposes,
                s[i].joint,
            )[p] == spec_apply(bindposes[s[i].joint], s[i].position),
    decreases s.len(),
{
    let j = s[i].joint;
    if i == s.len() - 1 {
        let pts = joint_points(s, bindposes, j);
        assert(pts.last() == spec_apply(bindposes[j], s[i].position));
    } else {
        lemma_joint_points_member(s.drop_last(), bindposes, i);
        let rest = joint_points(s.drop_last(), bindposes, j);
        let p = choose|p: int|
            0 <= p < rest.len() && rest[p] == spec_apply(
                bindposes[j],
                s.drop_last()[i].position,
            );
        let pts = joint_points(s, bindposes, j);
        if s.last().joint == j {
            assert(pts[p] == rest[p]);
        }
    }
}

/// Build the bounds asset for a mesh and its skin's inverse bind transforms.
///
/// A mesh without usable skin data (absent attributes, mismatched lengths)
/// yields an asset with zero boxes, not an error.  An influence naming a
/// joint outside the bind-pose list, or a skin with more joints than the
/// joint-index width can hold, aborts the build: no asset is produced.
pub fn create_skinned_aabb_asset(
    mesh: &MeshData,
    mesh_handle: u64,
    inverse_bindposes: &SkinnedMeshInverseBindposes,
    inverse_bindposes_handle: u64,
) -> (r: Result<SkinnedAabbAsset, SkinnedAabbError>)
    requires
        mesh_in_limit(*mesh),
        bindposes_in_limit(inverse_bindposes@),
    ensures
        r is Ok <==> (inverse_bindposes@.len() <= MAX_JOINT_COUNT && joints_in_range(
            *mesh,
            inverse_bindposes@.len() as int,
        )),
        r == Result::<SkinnedAabbAsset, SkinnedAabbError>::Err(SkinnedAabbError::TooManyJoints)
            <==> inverse_bindposes@.len() > MAX_JOINT_COUNT,
        r == Result::<SkinnedAabbAsset, SkinnedAabbError>::Err(SkinnedAabbError::InvalidJointIndex)
            <==> (inverse_bindposes@.len() <= MAX_JOINT_COUNT && !joints_in_range(
            *mesh,
            inverse_bindposes@.len() as int,
        )),
        r matches Ok(asset) ==> {
            &&& asset.source.mesh == mesh_handle
            &&& asset.source.inverse_bindposes == inverse_bindposes_handle
            &&& asset_matches(asset, *mesh, inverse_bindposes@)
            &&& asset_wf(asset)
        },
{
    let num_joints = inverse_bindposes.transforms.len();
    if num_joints > MAX_JOINT_COUNT {
        return Err(SkinnedAabbError::TooManyJoints);
    }
    let ghost bindposes = inverse_bindposes@;

    // Allocate an optional box for each joint.
    let mut optional_aabbs: Vec<Option<PackedAabb3d>> = Vec::new();
    let mut fill: usize = 0;
    while fill < num_joints
        invariant
            fill <= num_joints,
            optional_aabbs@.len() == fill,
            forall|j: int| 0 <= j < fill ==> optional_aabbs@[j] is None,
        decreases num_joints - fill,
    {
        optional_aabbs.push(None);
        fill = fill + 1;
    }

    // Walk every influence and grow the influenced joint's box by the
    // vertex position mapped into joint space.
    if mesh_has_skin_data(mesh) {
        let mut iter = InfluenceIterator::new(mesh);
        loop
            invariant
                mesh_valid(*mesh),
                mesh_in_limit(*mesh),
                bindposes_in_limit(bindposes),
                bindposes == inverse_bindposes@,
                num_joints == bindposes.len(),
                num_joints == inverse_bindposes.transforms@.len(),
                iter.slot <= slot_count(*mesh),
                optional_aabbs@.len() == num_joints,
                forall|i: int|
                    0 <= i < influences_prefix(*mesh, iter.slot as int).len()
                        ==> #[trigger] influences_prefix(*mesh, iter.slot as int)[i].joint
                        < num_joints,
                forall|j: int|
                    0 <= j < num_joints ==> opt_aabb_view(#[trigger] optional_aabbs@[j])
                        == box_of_points(
                        joint_points(influences_prefix(*mesh, iter.slot as int), bindposes, j),
                    ),
                forall|j: int|
                    0 <= j < num_joints ==> ((#[trigger] optional_aabbs@[j]) matches Some(b) ==> (
                    aabb_wf(b@) && aabb_in(b@, JOINT_BOX_LIMIT as int))),
            ensures
                iter.slot == slot_count(*mesh),
                optional_aabbs@.len() == num_joints,
                forall|i: int|
                    0 <= i < influences_prefix(*mesh, slot_count(*mesh)).len()
                        ==> #[trigger] influences_prefix(*mesh, slot_count(*mesh))[i].joint
                        < num_joints,
                forall|j: int|
                    0 <= j < num_joints ==> opt_aabb_view(#[trigger] optional_aabbs@[j])
                        == box_of_points(
                        joint_points(influences_prefix(*mesh, slot_count(*mesh)), bindposes, j),
                    ),
                forall|j: int|
                    0 <= j < num_joints ==> ((#[trigger] optional_aabbs@[j]) matches Some(b) ==> (
                    aabb_wf(b@) && aabb_in(b@, JOINT_BOX_LIMIT as int))),
            decreases slot_count(*mesh) - iter.slot,
        {
            let ghost prefix_before = influences_prefix(*mesh, iter.slot as int);
            match iter.next(mesh) {
                Some(influence) => {
                    let ghost prefix_after = influences_prefix(*mesh, iter.slot as int);
                    let joint_index = influence.joint_index;
                    if joint_index >= num_joints {
                        // The faulty influence is visible in the full
                        // influence list, so the range condition fails.
                        proof {
                            lemma_influences_prefix_extends(
                                *mesh,
                                iter.slot as int,
                                slot_count(*mesh),
                            );
                            assert(prefix_after[prefix_after.len() - 1] == influence@);
                            assert(influences(*mesh)[prefix_after.len() - 1] == influence@);
                            assert(influences(*mesh)[prefix_after.len() - 1].joint
                                >= num_joints);
                        }
                        return Err(SkinnedAabbError::InvalidJointIndex);
                    }
                    proof {
                        let n = iter.slot as int - 1;
                        assert(influence@ == influence_at(*mesh, n));
                        assert(0 <= n < slot_count(*mesh));
                        assert(n / (crate::mesh::MAX_INFLUENCES as int)
                            < mesh.positions->0@.len());
                        assert(svec_in(influence.position@, INPUT_LIMIT as int));
                        assert(bindposes[joint_index as int]
                            == inverse_bindposes.transforms@[joint_index as int]@);
                        assert(affine_in(
                            inverse_bindposes.transforms@[joint_index as int]@,
                            INPUT_LIMIT as int,
                            INPUT_LIMIT as int,
                        ));
                    }
                    let jointspace_position = transform_point(
                        &inverse_bindposes.transforms[joint_index],
                        &influence.position,
                    );
                    let merged = merge(optional_aabbs[joint_index], jointspace_position);
                    proof {
                        assert(bindposes[joint_index as int] == inverse_bindposes.transforms@[
                            joint_index as int]@);
                        lemma_joint_points_push(prefix_before, bindposes, influence@, joint_index as int);
                        assert forall|j: int| 0 <= j < num_joints && j != joint_index as int implies
                            joint_points(prefix_after, bindposes, j) == joint_points(
                            prefix_before,
                            bindposes,
                            j,
                        ) by {
                            lemma_joint_points_push(prefix_before, bindposes, influence@, j);
                        }
                        lemma_box_of_points_push(
                            joint_points(prefix_before, bindposes, joint_index as int),
                            spec_apply(bindposes[joint_index as int], influence@.position),
                        );
                    }
                    optional_aabbs.set(joint_index, Some(merged));
                },
                None => {
                    break ;
                },
            }
        }
        proof {
            assert(influences(*mesh) == influences_prefix(*mesh, slot_count(*mesh)));
        }
    } else {
        proof {
            assert(influences(*mesh) =~= Seq::<SpecInfluence>::empty());
        }
    }

    // Compact: keep only the joints whose box received at least one point.
    let mut aabbs: Vec<PackedAabb3d> = Vec::new();
    let mut aabb_index_to_joint_index: Vec<JointIndex> = Vec::new();
    let mut joint_index: usize = 0;
    while joint_index < num_joints
        invariant
            num_joints == bindposes.len(),
            num_joints <= MAX_JOINT_COUNT,
            joint_index <= num_joints,
            optional_aabbs@.len() == num_joints,
            forall|j: int|
                0 <= j < num_joints ==> opt_aabb_view(#[trigger] optional_aabbs@[j])
                    == joint_box(*mesh, bindposes, j),
            forall|j: int|
                0 <= j < num_joints ==> ((#[trigger] optional_aabbs@[j]) matches Some(b) ==> (
                aabb_wf(b@) && aabb_in(b@, JOINT_BOX_LIMIT as int))),
            aabbs@.len() == aabb_index_to_joint_index@.len(),
            forall|i: int|
                0 <= i < aabb_index_to_joint_index@.len()
                    ==> (#[trigger] aabb_index_to_joint_index@[i]) < joint_index,
            forall|i: int|
                0 <= i < aabb_index_to_joint_index@.len() ==> joint_box(
                    *mesh,
                    bindposes,
                    #[trigger] aabb_index_to_joint_index@[i] as int,
                ) == Some(aabbs@[i]@),
            forall|i1: int, i2: int|
                0 <= i1 < i2 < aabb_index_to_joint_index@.len()
                    ==> aabb_index_to_joint_index@[i1] < aabb_index_to_joint_index@[i2],
            forall|j: int|
                0 <= j < joint_index && (#[trigger] joint_box(*mesh, bindposes, j)) is Some
                    ==> exists|i: int|
                    0 <= i < aabb_index_to_joint_index@.len()
                        && #[trigger] aabb_index_to_joint_index@[i] as int == j,
            forall|i: int|
                0 <= i < aabbs@.len() ==> aabb_wf(#[trigger] aabbs@[i]@) && aabb_in(
                    aabbs@[i]@,
                    JOINT_BOX_LIMIT as int,
                ),
        decreases num_joints - joint_index,
    {
        let ghost old_map = aabb_index_to_joint_index@;
        if let Some(aabb) = optional_aabbs[joint_index] {
            aabbs.push(aabb);
            aabb_index_to_joint_index.push(joint_index as JointIndex);
        }
        proof {
            let map = aabb_index_to_joint_index@;
            assert forall|j: int|
                0 <= j < joint_index as int + 1 && (#[trigger] joint_box(
                    *mesh,
                    bindposes,
                    j,
                )) is Some implies exists|i: int|
                0 <= i < map.len() && #[trigger] map[i] as int == j by {
                if j == joint_index as int {
                    assert(opt_aabb_view(optional_aabbs@[j]) == joint_box(*mesh, bindposes, j));
                    assert(optional_aabbs@[j] is Some);
                    assert(map[map.len() - 1] as int == j);
                } else {
                    let i = choose|i: int| 0 <= i < old_map.len() && old_map[i] as int == j;
                    assert(map[i] as int == j);
                }
            }
        }
        joint_index = joint_index + 1;
    }

    Ok(
        SkinnedAabbAsset {
            source: SkinnedAabbSourceAssets {
                mesh: mesh_handle,
                inverse_bindposes: inverse_bindposes_handle,
            },
            aabbs,
            aabb_index_to_joint_index,
        },
    )
}

/// A mesh whose joint weights are all zero produces an asset with no boxes.
pub proof fn lemma_zero_weight_mesh_no_boxes(
    asset: SkinnedAabbAsset,
    m: MeshData,
    bindposes: Seq<SpecAffine3>,
)
    requires
        asset_matches(asset, m, bindposes),
        forall|n: int| 0 <= n < slot_count(m) ==> !slot_active(m, n),
    ensures
        asset.aabbs@.len() == 0,
{
    lemma_inactive_prefix_empty(m, slot_count(m));
    if asset.aabbs@.len() > 0 {
        let map = asset.aabb_index_to_joint_index@;
        assert(joint_box(m, bindposes, map[0] as int) == Some(asset.aabbs@[0]@));
        assert(influences(m) =~= Seq::<SpecInfluence>::empty());
    }
}

proof fn lemma_inactive_prefix_empty(m: MeshData, n: int)
    requires
        forall|k: int| 0 <= k < n ==> !slot_active(m, k),
    ensures
        influences_prefix(m, n) == Seq::<SpecInfluence>::empty(),
    decreases n,
{
    if n > 0 {
        lemma_inactive_prefix_empty(m, n - 1);
    }
}

} // verus!
