use skinned_aabb::aabb::Vec3i;
use skinned_aabb::affine::{identity, Affine3i};
use skinned_aabb::asset::{
    create_skinned_aabb_asset, SkinnedAabbError, SkinnedMeshInverseBindposes,
};
use skinned_aabb::mesh::{InfluenceIterator, MeshData, MAX_INFLUENCES};

fn v(x: i64, y: i64, z: i64) -> Vec3i {
    Vec3i { x, y, z }
}

fn bindposes(transforms: Vec<Affine3i>) -> SkinnedMeshInverseBindposes {
    SkinnedMeshInverseBindposes { transforms }
}

fn mesh(positions: Vec<Vec3i>, joint_indices: Vec<u16>, joint_weights: Vec<u32>) -> MeshData {
    MeshData {
        positions: Some(positions),
        joint_indices: Some(joint_indices),
        joint_weights: Some(joint_weights),
    }
}

#[test]
fn influence_iterator_skips_zero_weight_slots() {
    // Two vertices; only three of the eight slots carry weight.  Zero-weight
    // slots hold garbage joint indices that must not surface.
    let m = mesh(
        vec![v(1, 0, 0), v(0, 2, 0)],
        vec![3, 9, 9, 1, 2, 9, 9, 0],
        vec![10, 0, 0, 5, 7, 0, 0, 0],
    );
    let mut iter = InfluenceIterator::new(&m);
    let mut collected: Vec<(i64, usize)> = Vec::new();
    while let Some(influence) = iter.next(&m) {
        collected.push((influence.position.x, influence.joint_index));
    }
    assert_eq!(collected, vec![(1, 3), (1, 1), (0, 2)]);
}

#[test]
fn influence_iterator_is_restartable() {
    let m = mesh(vec![v(5, 5, 5)], vec![0, 1, 0, 0], vec![1, 1, 0, 0]);
    let mut first = InfluenceIterator::new(&m);
    let mut count_first = 0;
    while first.next(&m).is_some() {
        count_first += 1;
    }
    let mut second = InfluenceIterator::new(&m);
    let mut count_second = 0;
    while second.next(&m).is_some() {
        count_second += 1;
    }
    assert_eq!(count_first, 2);
    assert_eq!(count_second, 2);
}

#[test]
fn single_triangle_yields_unit_box_for_joint_zero() {
    // Three vertices fully bound to joint 0, inverse bind pose = identity.
    let m = mesh(
        vec![v(0, 0, 0), v(1, 0, 0), v(0, 1, 0)],
        vec![0; 3 * MAX_INFLUENCES],
        vec![100, 0, 0, 0, 100, 0, 0, 0, 100, 0, 0, 0],
    );
    let ibp = bindposes(vec![identity()]);
    let asset = create_skinned_aabb_asset(&m, 1, &ibp, 2).unwrap();

    assert_eq!(asset.source.mesh, 1);
    assert_eq!(asset.source.inverse_bindposes, 2);
    assert_eq!(asset.num_aabbs(), 1);
    assert_eq!(asset.aabb_index_to_joint_index, vec![0u16]);
    let b = asset.aabb(0);
    assert_eq!(b.min, v(0, 0, 0));
    assert_eq!(b.max, v(1, 1, 0));
}

#[test]
fn bind_pose_maps_positions_into_joint_space() {
    // One vertex at (10, 0, 0) bound to a joint whose inverse bind pose
    // translates by (-10, 0, 0): the joint-space box sits at the origin.
    let m = mesh(vec![v(10, 0, 0)], vec![0, 0, 0, 0], vec![1, 0, 0, 0]);
    let mut t = identity();
    t.translation = v(-10, 0, 0);
    let ibp = bindposes(vec![t]);
    let asset = create_skinned_aabb_asset(&m, 7, &ibp, 8).unwrap();
    assert_eq!(asset.num_aabbs(), 1);
    assert_eq!(asset.aabb(0).min, v(0, 0, 0));
    assert_eq!(asset.aabb(0).max, v(0, 0, 0));
}

#[test]
fn uninfluenced_joints_are_absent_from_the_asset() {
    // Joints 0 and 2 receive influences; joint 1 must not appear.
    let m = mesh(
        vec![v(1, 1, 1), v(2, 2, 2)],
        vec![2, 0, 0, 0, 0, 0, 0, 0],
        vec![1, 0, 0, 0, 1, 0, 0, 0],
    );
    let ibp = bindposes(vec![identity(); 3]);
    let asset = create_skinned_aabb_asset(&m, 1, &ibp, 1).unwrap();
    assert_eq!(asset.num_aabbs(), 2);
    assert_eq!(asset.aabb_index_to_joint_index, vec![0u16, 2u16]);
    assert_eq!(asset.aabb(0).min, v(2, 2, 2));
    assert_eq!(asset.aabb(1).min, v(1, 1, 1));
}

#[test]
fn all_zero_weights_give_empty_asset() {
    let m = mesh(
        vec![v(3, 3, 3), v(-3, -3, -3)],
        vec![0, 1, 2, 3, 0, 1, 2, 3],
        vec![0; 8],
    );
    let ibp = bindposes(vec![identity(); 4]);
    let asset = create_skinned_aabb_asset(&m, 1, &ibp, 1).unwrap();
    assert_eq!(asset.num_aabbs(), 0);
    assert_eq!(asset.aabb_index_to_joint_index.len(), 0);
}

#[test]
fn mismatched_attribute_lengths_give_empty_asset() {
    // Three positions but joint data for only one vertex: no usable skin
    // data, an asset with zero boxes, not an error.
    let m = mesh(
        vec![v(1, 0, 0), v(2, 0, 0), v(3, 0, 0)],
        vec![0, 0, 0, 0],
        vec![1, 1, 1, 1],
    );
    let ibp = bindposes(vec![identity()]);
    let asset = create_skinned_aabb_asset(&m, 1, &ibp, 1).unwrap();
    assert_eq!(asset.num_aabbs(), 0);
}

#[test]
fn absent_attribute_gives_empty_asset() {
    let m = MeshData {
        positions: Some(vec![v(1, 0, 0)]),
        joint_indices: None,
        joint_weights: Some(vec![1, 0, 0, 0]),
    };
    let ibp = bindposes(vec![identity()]);
    let asset = create_skinned_aabb_asset(&m, 1, &ibp, 1).unwrap();
    assert_eq!(asset.num_aabbs(), 0);
}

#[test]
fn out_of_range_joint_index_fails_the_build() {
    // A weighted influence names joint 5, but only one bind pose exists.
    let m = mesh(vec![v(1, 0, 0)], vec![5, 0, 0, 0], vec![1, 0, 0, 0]);
    let ibp = bindposes(vec![identity()]);
    let err = create_skinned_aabb_asset(&m, 1, &ibp, 1).unwrap_err();
    assert_eq!(err, SkinnedAabbError::InvalidJointIndex);
}

#[test]
fn zero_weight_slot_with_out_of_range_index_is_harmless() {
    // The out-of-range index sits in a zero-weight slot: padding, not data.
    let m = mesh(vec![v(1, 0, 0)], vec![0, 500, 0, 0], vec![1, 0, 0, 0]);
    let ibp = bindposes(vec![identity()]);
    let asset = create_skinned_aabb_asset(&m, 1, &ibp, 1).unwrap();
    assert_eq!(asset.num_aabbs(), 1);
}

#[test]
fn too_many_joints_fails_the_build() {
    let m = mesh(vec![v(1, 0, 0)], vec![0, 0, 0, 0], vec![1, 0, 0, 0]);
    let ibp = bindposes(vec![identity(); 65537]);
    let err = create_skinned_aabb_asset(&m, 1, &ibp, 1).unwrap_err();
    assert_eq!(err, SkinnedAabbError::TooManyJoints);
}
