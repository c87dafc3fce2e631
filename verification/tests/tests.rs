//! Randomized integration run: a selection of skinned meshes is spawned,
//! assets are created once, and for many frames of randomized joint poses
//! the conservative per-object box must contain every skinned influence
//! position computed independently here.

use skinned_aabb::aabb::Vec3i;
use skinned_aabb::affine::Affine3i;
use skinned_aabb::cache::{
    create_skinned_aabbs, BoundsState, InverseBindposesAssets, MeshAssets, SceneObject,
    SkinnedAabbAssets, SkinnedMesh,
};
use skinned_aabb::asset::SkinnedMeshInverseBindposes;
use skinned_aabb::mesh::MeshData;
use skinned_aabb::update::{update_skinned_aabbs, SkinnedAabbPluginSettings, TransformTable};

struct Rng(u64);

impl Rng {
    fn next(&mut self) -> u64 {
        self.0 = self.0.wrapping_mul(6364136223846793005).wrapping_add(1442695040888963407);
        self.0 >> 16
    }

    /// A value in [-magnitude, magnitude].
    fn coord(&mut self, magnitude: i64) -> i64 {
        (self.next() % (2 * magnitude as u64 + 1)) as i64 - magnitude
    }

    fn vec(&mut self, magnitude: i64) -> Vec3i {
        Vec3i { x: self.coord(magnitude), y: self.coord(magnitude), z: self.coord(magnitude) }
    }

    /// A transform with small mixed-sign entries; occasionally degenerate
    /// (zero axes) or reflected, which the box transform must tolerate.
    fn affine(&mut self) -> Affine3i {
        Affine3i {
            x_axis: self.vec(4),
            y_axis: self.vec(4),
            z_axis: self.vec(4),
            translation: self.vec(16),
        }
    }
}

fn apply(t: &Affine3i, p: (i64, i64, i64)) -> (i64, i64, i64) {
    (
        t.x_axis.x * p.0 + t.y_axis.x * p.1 + t.z_axis.x * p.2 + t.translation.x,
        t.x_axis.y * p.0 + t.y_axis.y * p.1 + t.z_axis.y * p.2 + t.translation.y,
        t.x_axis.z * p.0 + t.y_axis.z * p.1 + t.z_axis.z * p.2 + t.translation.z,
    )
}

/// A mesh of `num_joints` single-triangle patches, each fully bound to its
/// own joint.
fn hard_skinned_mesh(rng: &mut Rng, num_joints: usize) -> MeshData {
    let mut positions = Vec::new();
    let mut joint_indices = Vec::new();
    let mut joint_weights = Vec::new();
    for joint in 0..num_joints {
        for _ in 0..3 {
            positions.push(rng.vec(16));
            joint_indices.extend_from_slice(&[joint as u16, 0, 0, 0]);
            joint_weights.extend_from_slice(&[1000, 0, 0, 0]);
        }
    }
    MeshData {
        positions: Some(positions),
        joint_indices: Some(joint_indices),
        joint_weights: Some(joint_weights),
    }
}

/// A mesh whose vertices each carry several weighted influences, with some
/// zero-weight padding slots holding garbage indices.
fn soft_skinned_mesh(rng: &mut Rng, num_verts: usize, num_joints: usize) -> MeshData {
    let mut positions = Vec::new();
    let mut joint_indices = Vec::new();
    let mut joint_weights = Vec::new();
    for _ in 0..num_verts {
        positions.push(rng.vec(16));
        let influences = 1 + (rng.next() % 4) as usize;
        for slot in 0..4 {
            if slot < influences {
                joint_indices.push((rng.next() % num_joints as u64) as u16);
                joint_weights.push(1 + (rng.next() % 999) as u32);
            } else {
                joint_indices.push(9999);
                joint_weights.push(0);
            }
        }
    }
    MeshData {
        positions: Some(positions),
        joint_indices: Some(joint_indices),
        joint_weights: Some(joint_weights),
    }
}

#[test]
fn test() {
    let mut rng = Rng(732935);

    let num_joints = [1usize, 7, 20];
    let mut mesh_ids = Vec::new();
    let mut meshes = Vec::new();
    let mut bindpose_ids = Vec::new();
    let mut bindposes = Vec::new();
    for (i, &n) in num_joints.iter().enumerate() {
        mesh_ids.push(10 + i as u64);
        meshes.push(if i % 2 == 0 {
            hard_skinned_mesh(&mut rng, n)
        } else {
            soft_skinned_mesh(&mut rng, 30, n)
        });
        bindpose_ids.push(20 + i as u64);
        let transforms: Vec<Affine3i> = (0..n).map(|_| rng.affine()).collect();
        bindposes.push(SkinnedMeshInverseBindposes { transforms });
    }
    let mesh_assets = MeshAssets { ids: mesh_ids, meshes };
    let bindpose_assets = InverseBindposesAssets { ids: bindpose_ids, bindposes };

    // Several objects per mesh so the cache is shared; joints get globally
    // unique entity ids per object.
    let mut objects: Vec<SceneObject> = Vec::new();
    let mut next_entity: u64 = 1000;
    for (i, &n) in num_joints.iter().enumerate() {
        for _ in 0..2 {
            let joints: Vec<u64> = (0..n).map(|k| next_entity + k as u64).collect();
            next_entity += n as u64;
            objects.push(SceneObject {
                mesh: 10 + i as u64,
                skin: SkinnedMesh { inverse_bindposes: 20 + i as u64, joints },
                bounds: BoundsState::Pending,
                entity_from_world: rng.affine(),
                aabb: skinned_aabb::aabb::PackedAabb3d {
                    min: Vec3i { x: 0, y: 0, z: 0 },
                    max: Vec3i { x: 0, y: 0, z: 0 },
                },
            });
        }
    }

    let mut store = SkinnedAabbAssets { assets: Vec::new() };
    create_skinned_aabbs(&mut objects, &mut store, &mesh_assets, &bindpose_assets);
    for o in objects.iter() {
        assert!(matches!(o.bounds, BoundsState::Ready(_)));
    }
    assert_eq!(store.assets.len(), num_joints.len());

    let settings = SkinnedAabbPluginSettings::default();

    for frame in 0..100 {
        // Fresh joint poses each frame; every seventh frame one object's
        // first joint entity is missing from the world.
        let mut entities = Vec::new();
        let mut transforms = Vec::new();
        for (oi, o) in objects.iter().enumerate() {
            for (ji, &entity) in o.skin.joints.iter().enumerate() {
                if frame % 7 == 0 && oi == frame % objects.len() && ji == 0 {
                    continue;
                }
                entities.push(entity);
                transforms.push(rng.affine());
            }
        }
        let table = TransformTable { entities, transforms };

        update_skinned_aabbs(&mut objects, &table, &store, &settings);

        // Independent check: every influence whose joint is live must land
        // inside its object's box once skinned.
        for o in objects.iter() {
            let mesh_index = mesh_assets.ids.iter().position(|&id| id == o.mesh).unwrap();
            let mesh = &mesh_assets.meshes[mesh_index];
            let bp_index =
                bindpose_assets.ids.iter().position(|&id| id == o.skin.inverse_bindposes).unwrap();
            let bindposes = &bindpose_assets.bindposes[bp_index];
            let positions = mesh.positions.as_ref().unwrap();
            let joint_indices = mesh.joint_indices.as_ref().unwrap();
            let joint_weights = mesh.joint_weights.as_ref().unwrap();
            for (vi, p) in positions.iter().enumerate() {
                for slot in 0..4 {
                    if joint_weights[vi * 4 + slot] == 0 {
                        continue;
                    }
                    let j = joint_indices[vi * 4 + slot] as usize;
                    let entity = o.skin.joints[j];
                    let Some(ti) = table.entities.iter().position(|&e| e == entity) else {
                        continue;
                    };
                    let world_from_joint = &table.transforms[ti];
                    let q = apply(&bindposes.transforms[j], (p.x, p.y, p.z));
                    let w = apply(world_from_joint, q);
                    let s = apply(&o.entity_from_world, w);
                    let b = &o.aabb;
                    assert!(
                        b.min.x <= s.0 && s.0 <= b.max.x && b.min.y <= s.1 && s.1 <= b.max.y
                            && b.min.z <= s.2 && s.2 <= b.max.z,
                        "skinned influence escaped the conservative box",
                    );
                }
            }
        }
    }
}
