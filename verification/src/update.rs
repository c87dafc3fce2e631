//! The per-frame pass: map every joint-space box through its joint's current
//! pose, merge the results, and write one conservative object-space box per
//! scene object.
//!
//! The pass is data-parallel across objects: each object reads only its own
//! immutable asset and the shared read-only joint-transform table, and
//! writes only its own box.  The reference semantics here is the sequential
//! loop; a host with a worker pool may fan the same per-object step out in
//! any order.

use crate::aabb::aabb_contains_aabb;
use crate::aabb::aabb_contains_point;
use crate::aabb::aabb_wf;
use crate::aabb::merge_aabb;
use crate::aabb::opt_aabb_view;
use crate::aabb::spec_merge_aabb;
use crate::aabb::PackedAabb3d;
use crate::aabb::SpecAabb3d;
use crate::affine::affine_in;
use crate::affine::aabb_transformed_by;
use crate::affine::lemma_aabb_transform_contains_point;
use crate::affine::lemma_aabb_transform_wf;
use crate::affine::mul_affine;
use crate::affine::spec_aabb_transformed_by;
use crate::affine::spec_apply;
use crate::affine::spec_compose;
use crate::affine::Affine3i;
use crate::affine::SpecAffine3;
use crate::affine::INPUT_LIMIT;
use crate::asset::asset_matches;
use crate::asset::asset_wf;
use crate::asset::joint_box;
use crate::asset::joint_points;
use crate::asset::lemma_box_of_points_contains;
use crate::asset::lemma_joint_points_member;
use crate::asset::SkinnedAabbAsset;
use crate::cache::aabb_assets_wf;
use crate::cache::id_present;
use crate::cache::ids_distinct;
use crate::cache::ids_index_of;
use crate::cache::BoundsState;
use crate::cache::SceneObject;
use crate::cache::SkinnedAabb;
use crate::cache::SkinnedAabbAssets;
use crate::cache::SkinnedMesh;
use crate::mesh::influences;
use crate::mesh::MeshData;
use vstd::prelude::*;

verus! {

/// Host-facing configuration of the per-frame update.  When `parallel` is
/// set the host may fan the per-object step out over a worker pool; the
/// per-object result is the same either way, so this library's semantics is
/// the sequential loop.
#[derive(Clone, Copy, Debug)]
pub struct SkinnedAabbPluginSettings {
    pub parallel: bool,
}

impl Default for SkinnedAabbPluginSettings {
    fn default() -> (s: Self)
        ensures
            s.parallel,
    {
        SkinnedAabbPluginSettings { parallel: true }
    }
}

/// The world transforms of the live joint entities for one frame: parallel
/// lists of entity id and transform.  A joint entity that was despawned is
/// simply absent.
pub struct TransformTable {
    pub entities: Vec<u64>,
    pub transforms: Vec<Affine3i>,
}

pub open spec fn table_wf(t: TransformTable) -> bool {
    &&& t.entities@.len() == t.transforms@.len()
    &&& ids_distinct(t.entities@)
    &&& forall|i: int|
        0 <= i < t.transforms@.len() ==> affine_in(
            #[trigger] t.transforms@[i]@,
            INPUT_LIMIT as int,
            INPUT_LIMIT as int,
        )
}

pub open spec fn transform_present(t: TransformTable, entity: u64) -> bool {
    id_present(t.entities@, entity)
}

pub open spec fn transform_at(t: TransformTable, entity: u64) -> SpecAffine3 {
    t.transforms@[ids_index_of(t.entities@, entity)]@
}

pub open spec fn opt_affine_view(o: Option<Affine3i>) -> Option<SpecAffine3> {
    match o {
        Some(t) => Some(t@),
        None => None,
    }
}

impl TransformTable {
    /// Look the world transform of a joint entity up.
    pub fn get(&self, entity: u64) -> (r: Option<&Affine3i>)
        requires
            table_wf(*self),
        ensures
            match r {
                Some(t) => transform_present(*self, entity) && t@ == transform_at(*self, entity),
                None => !transform_present(*self, entity),
            },
    {
        let n = self.entities.len();
        let mut i: usize = 0;
        while i < n
            invariant
                table_wf(*self),
                n == self.entities@.len(),
                i <= n,
                forall|k: int| 0 <= k < i ==> self.entities@[k] != entity,
            decreases n - i,
        {
            if self.entities[i] == entity {
                proof {
                    crate::cache::lemma_id_index_unique(self.entities@, entity, i as int);
                }
                return Some(&self.transforms[i]);
            }
            i = i + 1;
        }
        None
    }
}

/// The world transform of the joint that box `k` of the asset belongs to,
/// or nothing when the box index, the joint index, or the joint entity does
/// not resolve.
pub open spec fn spec_world_from_joint(
    asset: SkinnedAabbAsset,
    skin: SkinnedMesh,
    joints: TransformTable,
    k: int,
) -> Option<SpecAffine3> {
    if !(0 <= k < asset.aabb_index_to_joint_index@.len()) {
        None
    } else {
        let j = asset.aabb_index_to_joint_index@[k] as int;
        if !(j < skin.joints@.len()) {
            None
        } else {
            let entity = skin.joints@[j];
            if transform_present(joints, entity) {
                Some(transform_at(joints, entity))
            } else {
                None
            }
        }
    }
}

impl SkinnedAabbAsset {
    /// The current world transform of the joint that box `aabb_index`
    /// belongs to; nothing when the joint entity is absent from the world.
    pub fn world_from_joint(
        &self,
        aabb_index: usize,
        skinned_mesh: &SkinnedMesh,
        joints: &TransformTable,
    ) -> (r: Option<Affine3i>)
        requires
            table_wf(*joints),
        ensures
            opt_affine_view(r) == spec_world_from_joint(
                *self,
                *skinned_mesh,
                *joints,
                aabb_index as int,
            ),
    {
        if aabb_index >= self.aabb_index_to_joint_index.len() {
            return None;
        }
        let joint_index = self.aabb_index_to_joint_index[aabb_index] as usize;
        if joint_index >= skinned_mesh.joints.len() {
            return None;
        }
        let joint_entity = skinned_mesh.joints[joint_index];
        match joints.get(joint_entity) {
            Some(world_from_joint) => Some(*world_from_joint),
            None => None,
        }
    }
}

/// The object-space box accumulated over the first `n` boxes of the asset:
/// each box whose joint resolves is transformed by the object-from-joint
/// transform and merged; unresolved joints are skipped.
pub open spec fn spec_entity_aabb_upto(
    asset: SkinnedAabbAsset,
    skin: SkinnedMesh,
    joints: TransformTable,
    entity_from_world: SpecAffine3,
    n: int,
) -> Option<SpecAabb3d>
    decreases n,
{
    if n <= 0 {
        None
    } else {
        let prev = spec_entity_aabb_upto(asset, skin, joints, entity_from_world, n - 1);
        match spec_world_from_joint(asset, skin, joints, n - 1) {
            Some(world_from_joint) => Some(
                spec_merge_aabb(
                    prev,
                    spec_aabb_transformed_by(
                        asset.aabbs@[n - 1]@,
                        spec_compose(entity_from_world, world_from_joint),
                    ),
                ),
            ),
            None => prev,
        }
    }
}

/// The object-space box of a whole asset for one frame, or nothing when the
/// asset has no boxes or no joint resolved.
pub open spec fn spec_entity_aabb(
    asset: SkinnedAabbAsset,
    skin: SkinnedMesh,
    joints: TransformTable,
    entity_from_world: SpecAffine3,
) -> Option<SpecAabb3d> {
    spec_entity_aabb_upto(asset, skin, joints, entity_from_world, asset.aabbs@.len() as int)
}

/// Given a skinned mesh and the frame's joint transforms, return the
/// object-space box, or nothing when the asset is missing, has no boxes, or
/// no referenced joint is live — the caller then leaves its previous box
/// untouched.
pub fn get_skinned_aabb(
    component: &SkinnedAabb,
    joints: &TransformTable,
    assets: &SkinnedAabbAssets,
    skinned_mesh: &SkinnedMesh,
    entity_from_world: &Affine3i,
) -> (r: Option<PackedAabb3d>)
    requires
        table_wf(*joints),
        aabb_assets_wf(*assets),
        affine_in(entity_from_world@, INPUT_LIMIT as int, INPUT_LIMIT as int),
    ensures
        component.asset < assets.assets@.len() ==> opt_aabb_view(r) == spec_entity_aabb(
            assets.assets@[component.asset as int],
            *skinned_mesh,
            *joints,
            entity_from_world@,
        ),
        component.asset >= assets.assets@.len() ==> r is None,
{
    let asset = match assets.get(component.asset) {
        Some(a) => a,
        None => {
            return None;
        },
    };
    let num_aabbs = asset.num_aabbs();
    let mut entity_aabb: Option<PackedAabb3d> = None;
    let mut k: usize = 0;
    while k < num_aabbs
        invariant
            table_wf(*joints),
            aabb_assets_wf(*assets),
            affine_in(entity_from_world@, INPUT_LIMIT as int, INPUT_LIMIT as int),
            component.asset < assets.assets@.len(),
            *asset == assets.assets@[component.asset as int],
            asset_wf(*asset),
            num_aabbs == asset.aabbs@.len(),
            k <= num_aabbs,
            opt_aabb_view(entity_aabb) == spec_entity_aabb_upto(
                *asset,
                *skinned_mesh,
                *joints,
                entity_from_world@,
                k as int,
            ),
        decreases num_aabbs - k,
    {
        match asset.world_from_joint(k, skinned_mesh, joints) {
            Some(world_from_joint) => {
                proof {
                    assert(spec_world_from_joint(*asset, *skinned_mesh, *joints, k as int)
                        == Some(world_from_joint@));
                }
                let entity_from_joint = mul_affine(entity_from_world, &world_from_joint);
                let joint_aabb = aabb_transformed_by(asset.aabb(k), entity_from_joint);
                entity_aabb = Some(merge_aabb(entity_aabb, joint_aabb));
            },
            None => {},
        }
        k = k + 1;
    }
    entity_aabb
}

/// The box a scene object carries after the update pass: the frame's
/// accumulated object-space box where one exists, its previous box
/// otherwise.
pub open spec fn spec_updated_aabb(
    o: SceneObject,
    assets: SkinnedAabbAssets,
    joints: TransformTable,
) -> SpecAabb3d {
    match o.bounds {
        BoundsState::Ready(c) => {
            if c.asset < assets.assets@.len() {
                match spec_entity_aabb(
                    assets.assets@[c.asset as int],
                    o.skin,
                    joints,
                    o.entity_from_world@,
                ) {
                    Some(b) => b,
                    None => o.aabb@,
                }
            } else {
                o.aabb@
            }
        },
        _ => o.aabb@,
    }
}

/// Everything but the box output is untouched by the update pass.
pub open spec fn same_except_aabb(a: SceneObject, b: SceneObject) -> bool {
    &&& b.mesh == a.mesh
    &&& b.skin == a.skin
    &&& b.bounds == a.bounds
    &&& b.entity_from_world == a.entity_from_world
}

/// For every scene object holding a bounds asset, recompute its object-space
/// box from the frame's joint transforms.  An object whose asset has no
/// boxes, or none of whose joints are live, keeps its previous box.
///
/// The host may run the per-object step in parallel when
/// `settings.parallel` is set: objects are independent, so the result is
/// the same as this sequential loop.
pub fn update_skinned_aabbs(
    objects: &mut Vec<SceneObject>,
    joints: &TransformTable,
    assets: &SkinnedAabbAssets,
    settings: &SkinnedAabbPluginSettings,
)
    requires
        table_wf(*joints),
        aabb_assets_wf(*assets),
        forall|k: int|
            0 <= k < old(objects)@.len() ==> affine_in(
                (#[trigger] old(objects)@[k]).entity_from_world@,
                INPUT_LIMIT as int,
                INPUT_LIMIT as int,
            ),
    ensures
        final(objects)@.len() == old(objects)@.len(),
        forall|k: int|
            0 <= k < old(objects)@.len() ==> same_except_aabb(
                #[trigger] old(objects)@[k],
                final(objects)@[k],
            ),
        forall|k: int|
            0 <= k < old(objects)@.len() ==> final(objects)@[k].aabb@ == spec_updated_aabb(
                #[trigger] old(objects)@[k],
                *assets,
                *joints,
            ),
{
    let _ = settings;
    let n = objects.len();
    let mut k: usize = 0;
    while k < n
        invariant
            table_wf(*joints),
            aabb_assets_wf(*assets),
            n == objects@.len(),
            objects@.len() == old(objects)@.len(),
            k <= n,
            forall|j: int| k <= j < n ==> objects@[j] == old(objects)@[j],
            forall|j: int|
                0 <= j < k ==> same_except_aabb(#[trigger] old(objects)@[j], objects@[j]),
            forall|j: int|
                0 <= j < k ==> objects@[j].aabb@ == spec_updated_aabb(
                    #[trigger] old(objects)@[j],
                    *assets,
                    *joints,
                ),
            forall|j: int|
                0 <= j < n ==> affine_in(
                    (#[trigger] old(objects)@[j]).entity_from_world@,
                    INPUT_LIMIT as int,
                    INPUT_LIMIT as int,
                ),
        decreases n - k,
    {
        let bounds = objects[k].bounds;
        if let BoundsState::Ready(component) = bounds {
            let updated = get_skinned_aabb(
                &component,
                joints,
                assets,
                &objects[k].skin,
                &objects[k].entity_from_world,
            );
            if let Some(aabb) = updated {
                objects[k].aabb = aabb;
            }
        }
        k = k + 1;
    }
}

/// Once at least one joint resolves, the accumulated box is well-formed.
pub proof fn lemma_entity_aabb_wf(
    asset: SkinnedAabbAsset,
    skin: SkinnedMesh,
    joints: TransformTable,
    entity_from_world: SpecAffine3,
    n: int,
)
    requires
        asset_wf(asset),
        n <= asset.aabbs@.len(),
    ensures
        spec_entity_aabb_upto(asset, skin, joints, entity_from_world, n) matches Some(b)
            ==> aabb_wf(b),
    decreases n,
{
    if n > 0 {
        lemma_entity_aabb_wf(asset, skin, joints, entity_from_world, n - 1);
        if spec_world_from_joint(asset, skin, joints, n - 1) is Some {
            lemma_aabb_transform_wf(
                asset.aabbs@[n - 1]@,
                spec_compose(
                    entity_from_world,
                    spec_world_from_joint(asset, skin, joints, n - 1)->0,
                ),
            );
        }
    }
}

/// The accumulated box contains the whole transformed box of every joint
/// that resolved.
proof fn lemma_entity_aabb_upto_contains(
    asset: SkinnedAabbAsset,
    skin: SkinnedMesh,
    joints: TransformTable,
    entity_from_world: SpecAffine3,
    i: int,
    n: int,
)
    requires
        0 <= i < n <= asset.aabbs@.len(),
        spec_world_from_joint(asset, skin, joints, i) is Some,
    ensures
        spec_entity_aabb_upto(asset, skin, joints, entity_from_world, n) is Some,
        aabb_contains_aabb(
            spec_entity_aabb_upto(asset, skin, joints, entity_from_world, n)->0,
            spec_aabb_transformed_by(
                asset.aabbs@[i]@,
                spec_compose(entity_from_world, spec_world_from_joint(asset, skin, joints, i)->0),
            ),
        ),
    decreases n,
{
    if i < n - 1 {
        lemma_entity_aabb_upto_contains(asset, skin, joints, entity_from_world, i, n - 1);
    }
}

/// Containment: for every influence of the source mesh whose joint is live,
/// the per-frame object-space box contains the influence's position as
/// skinned by that joint — joint-space position mapped through the joint's
/// current world transform and back into object space.  A convex blend of
/// per-joint skinned positions therefore stays inside the box as well,
/// since an axis-aligned box is closed under componentwise intermediate
/// values.
pub proof fn lemma_skinned_aabb_contains_influences(
    asset: SkinnedAabbAsset,
    m: MeshData,
    bindposes: Seq<SpecAffine3>,
    skin: SkinnedMesh,
    joints: TransformTable,
    entity_from_world: SpecAffine3,
    idx: int,
)
    requires
        asset_matches(asset, m, bindposes),
        0 <= idx < influences(m).len(),
        influences(m)[idx].joint < bindposes.len(),
        0 <= influences(m)[idx].joint < skin.joints@.len(),
        transform_present(joints, skin.joints@[influences(m)[idx].joint]),
    ensures
        ({
            let inf = influences(m)[idx];
            let world_from_joint = transform_at(joints, skin.joints@[inf.joint]);
            let skinned = spec_apply(
                spec_compose(entity_from_world, world_from_joint),
                spec_apply(bindposes[inf.joint], inf.position),
            );
            &&& spec_entity_aabb(asset, skin, joints, entity_from_world) is Some
            &&& aabb_contains_point(
                spec_entity_aabb(asset, skin, joints, entity_from_world)->0,
                skinned,
            )
        }),
{
    let inf = influences(m)[idx];
    let j = inf.joint;
    let pts = joint_points(influences(m), bindposes, j);
    let q = spec_apply(bindposes[j], inf.position);

    // The joint-space image of the influence is one of joint j's points,
    // so joint j's box exists and contains it.
    lemma_joint_points_member(influences(m), bindposes, idx);
    let p = choose|p: int| 0 <= p < pts.len() && pts[p] == q;
    lemma_box_of_points_contains(pts, p);
    assert(joint_box(m, bindposes, j) is Some);

    // The asset therefore carries a box for joint j.
    let map = asset.aabb_index_to_joint_index@;
    assert(exists|i: int| 0 <= i < asset.aabbs@.len() && #[trigger] map[i] as int == j);
    let i = choose|i: int| 0 <= i < asset.aabbs@.len() && #[trigger] map[i] as int == j;
    assert(joint_box(m, bindposes, map[i] as int) == Some(asset.aabbs@[i]@));
    assert(aabb_contains_point(asset.aabbs@[i]@, q));

    // That box's joint resolves, so the accumulated box contains its
    // transformed image, which contains the skinned position.
    let world_from_joint = transform_at(joints, skin.joints@[j]);
    assert(spec_world_from_joint(asset, skin, joints, i) == Some(world_from_joint));
    lemma_aabb_transform_contains_point(
        asset.aabbs@[i]@,
        spec_compose(entity_from_world, world_from_joint),
        q,
    );
    lemma_entity_aabb_upto_contains(
        asset,
        skin,
        joints,
        entity_from_world,
        i,
        asset.aabbs@.len() as int,
    );
}

} // verus!
