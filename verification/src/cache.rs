//! Asset stores, the deduplicating bounds-asset cache, and the pass that
//! attaches a bounds state to every newly seen scene object.
//!
//! The cache is keyed by the identity of the (mesh, inverse-bind-pose-set)
//! pair: many scene objects typically share one mesh and skin definition, so
//! a linear search over the few distinct assets precedes any build.  The
//! whole pass is sequential: it performs a search-then-insert over a shared
//! store, which must not interleave with itself.

use crate::aabb::PackedAabb3d;
use crate::affine::Affine3i;
use crate::asset::asset_matches;
use crate::asset::asset_wf;
use crate::asset::bindposes_in_limit;
use crate::asset::create_skinned_aabb_asset;
use crate::asset::joints_in_range;
use crate::asset::mesh_in_limit;
use crate::asset::SkinnedAabbAsset;
use crate::asset::SkinnedAabbSourceAssets;
use crate::asset::SkinnedMeshInverseBindposes;
use crate::asset::MAX_JOINT_COUNT;
use crate::mesh::MeshData;
use vstd::prelude::*;

verus! {

/// A scene object's reference to a shared bounds asset: an index into
/// [`SkinnedAabbAssets`].
#[derive(Clone, Copy, Debug, PartialEq, Eq, Structural)]
pub struct SkinnedAabb {
    pub asset: usize,
}

/// Bounds state of a scene object, decided once per object by the creation
/// pass.
#[derive(Clone, Copy, Debug, PartialEq, Eq, Structural)]
pub enum BoundsState {
    /// Not attempted yet, or source assets not resolvable: retried on a
    /// later pass.
    Pending,
    /// The source data is faulty; no asset will be produced for it.
    Unavailable,
    /// A bounds asset is attached.
    Ready(SkinnedAabb),
}

/// A scene object's skin: the identity of its inverse-bind-pose set and the
/// ordered entity ids of its joints.
pub struct SkinnedMesh {
    pub inverse_bindposes: u64,
    pub joints: Vec<u64>,
}

/// Host mesh storage: parallel lists of asset ids and mesh data.
pub struct MeshAssets {
    pub ids: Vec<u64>,
    pub meshes: Vec<MeshData>,
}

/// Host inverse-bind-pose storage: parallel lists of asset ids and data.
pub struct InverseBindposesAssets {
    pub ids: Vec<u64>,
    pub bindposes: Vec<SkinnedMeshInverseBindposes>,
}

/// The store of bounds assets; a [`SkinnedAabb`] handle is an index into
/// `assets`.  Published assets are never mutated.
pub struct SkinnedAabbAssets {
    pub assets: Vec<SkinnedAabbAsset>,
}

pub open spec fn id_present(ids: Seq<u64>, id: u64) -> bool {
    exists|i: int| 0 <= i < ids.len() && ids[i] == id
}

pub open spec fn ids_index_of(ids: Seq<u64>, id: u64) -> int {
    choose|i: int| 0 <= i < ids.len() && ids[i] == id
}

pub open spec fn ids_distinct(ids: Seq<u64>) -> bool {
    forall|i1: int, i2: int| 0 <= i1 < i2 < ids.len() ==> ids[i1] != ids[i2]
}

pub proof fn lemma_id_index_unique(ids: Seq<u64>, id: u64, i: int)
    requires
        ids_distinct(ids),
        0 <= i < ids.len(),
        ids[i] == id,
    ensures
        id_present(ids, id),
        ids_index_of(ids, id) == i,
{
    assert(id_present(ids, id));
    let c = ids_index_of(ids, id);
    if c < i {
        assert(ids[c] != ids[i]);
    } else if c > i {
        assert(ids[i] != ids[c]);
    }
}

pub open spec fn mesh_assets_wf(s: MeshAssets) -> bool {
    &&& s.ids@.len() == s.meshes@.len()
    &&& ids_distinct(s.ids@)
    &&& forall|i: int| 0 <= i < s.meshes@.len() ==> mesh_in_limit(#[trigger] s.meshes@[i])
}

pub open spec fn mesh_present(s: MeshAssets, id: u64) -> bool {
    id_present(s.ids@, id)
}

pub open spec fn mesh_at(s: MeshAssets, id: u64) -> MeshData {
    s.meshes@[ids_index_of(s.ids@, id)]
}

pub open spec fn bindpose_assets_wf(s: InverseBindposesAssets) -> bool {
    &&& s.ids@.len() == s.bindposes@.len()
    &&& ids_distinct(s.ids@)
    &&& forall|i: int|
        0 <= i < s.bindposes@.len() ==> bindposes_in_limit(#[trigger] s.bindposes@[i]@)
}

pub open spec fn bindposes_present(s: InverseBindposesAssets, id: u64) -> bool {
    id_present(s.ids@, id)
}

pub open spec fn bindposes_at(s: InverseBindposesAssets, id: u64) -> SkinnedMeshInverseBindposes {
    s.bindposes@[ids_index_of(s.ids@, id)]
}

impl MeshAssets {
    /// Look a mesh up by its id.
    pub fn get(&self, id: u64) -> (r: Option<&MeshData>)
        requires
            mesh_assets_wf(*self),
        ensures
            match r {
                Some(m) => mesh_present(*self, id) && *m == mesh_at(*self, id),
                None => !mesh_present(*self, id),
            },
    {
        let n = self.ids.len();
        let mut i: usize = 0;
        while i < n
            invariant
                mesh_assets_wf(*self),
                n == self.ids@.len(),
                i <= n,
                forall|k: int| 0 <= k < i ==> self.ids@[k] != id,
            decreases n - i,
        {
            if self.ids[i] == id {
                proof {
                    lemma_id_index_unique(self.ids@, id, i as int);
                }
                return Some(&self.meshes[i]);
            }
            i = i + 1;
        }
        None
    }
}

impl InverseBindposesAssets {
    /// Look an inverse-bind-pose set up by its id.
    pub fn get(&self, id: u64) -> (r: Option<&SkinnedMeshInverseBindposes>)
        requires
            bindpose_assets_wf(*self),
        ensures
            match r {
                Some(b) => bindposes_present(*self, id) && *b == bindposes_at(*self, id),
                None => !bindposes_present(*self, id),
            },
    {
        let n = self.ids.len();
        let mut i: usize = 0;
        while i < n
            invariant
                bindpose_assets_wf(*self),
                n == self.ids@.len(),
                i <= n,
                forall|k: int| 0 <= k < i ==> self.ids@[k] != id,
            decreases n - i,
        {
            if self.ids[i] == id {
                proof {
                    lemma_id_index_unique(self.ids@, id, i as int);
                }
                return Some(&self.bindposes[i]);
            }
            i = i + 1;
        }
        None
    }
}

pub open spec fn asset_present(s: SkinnedAabbAssets, source: SkinnedAabbSourceAssets) -> bool {
    exists|i: int| 0 <= i < s.assets@.len() && s.assets@[i].source == source
}

pub open spec fn asset_index_of(s: SkinnedAabbAssets, source: SkinnedAabbSourceAssets) -> int {
    choose|i: int| 0 <= i < s.assets@.len() && s.assets@[i].source == source
}

/// Every asset is well-formed and no two assets share a source pair.
pub open spec fn aabb_assets_wf(s: SkinnedAabbAssets) -> bool {
    &&& forall|i: int| 0 <= i < s.assets@.len() ==> asset_wf(#[trigger] s.assets@[i])
    &&& forall|i1: int, i2: int|
        0 <= i1 < i2 < s.assets@.len() ==> s.assets@[i1].source != s.assets@[i2].source
}

/// Every cached asset was built from the mesh and inverse-bind-pose data its
/// source pair names in the host stores.
pub open spec fn asset_consistent(
    a: SkinnedAabbAsset,
    mesh_assets: MeshAssets,
    bindpose_assets: InverseBindposesAssets,
) -> bool {
    &&& mesh_present(mesh_assets, a.source.mesh)
    &&& bindposes_present(bindpose_assets, a.source.inverse_bindposes)
    &&& asset_matches(
        a,
        mesh_at(mesh_assets, a.source.mesh),
        bindposes_at(bindpose_assets, a.source.inverse_bindposes)@,
    )
}

pub open spec fn aabb_assets_consistent(
    s: SkinnedAabbAssets,
    mesh_assets: MeshAssets,
    bindpose_assets: InverseBindposesAssets,
) -> bool {
    forall|i: int|
        0 <= i < s.assets@.len() ==> asset_consistent(
            #[trigger] s.assets@[i],
            mesh_assets,
            bindpose_assets,
        )
}

proof fn lemma_asset_source_unique(s: SkinnedAabbAssets, source: SkinnedAabbSourceAssets, i: int)
    requires
        aabb_assets_wf(s),
        0 <= i < s.assets@.len(),
        s.assets@[i].source == source,
    ensures
        asset_present(s, source),
        asset_index_of(s, source) == i,
{
    assert(asset_present(s, source));
    let c = asset_index_of(s, source);
    if c < i {
        assert(s.assets@[c].source != s.assets@[i].source);
    } else if c > i {
        assert(s.assets@[i].source != s.assets@[c].source);
    }
}

impl SkinnedAabbAssets {
    /// Search the cache for an asset built from exactly this source pair.
    pub fn find(&self, source: SkinnedAabbSourceAssets) -> (r: Option<usize>)
        requires
            aabb_assets_wf(*self),
        ensures
            match r {
                Some(i) => i < self.assets@.len() && self.assets@[i as int].source == source && i
                    as int == asset_index_of(*self, source),
                None => !asset_present(*self, source),
            },
    {
        let n = self.assets.len();
        let mut i: usize = 0;
        while i < n
            invariant
                aabb_assets_wf(*self),
                n == self.assets@.len(),
                i <= n,
                forall|k: int| 0 <= k < i ==> self.assets@[k].source != source,
            decreases n - i,
        {
            if self.assets[i].source == source {
                proof {
                    lemma_asset_source_unique(*self, source, i as int);
                }
                return Some(i);
            }
            i = i + 1;
        }
        None
    }

    /// Look an asset up by handle.
    pub fn get(&self, handle: usize) -> (r: Option<&SkinnedAabbAsset>)
        ensures
            match r {
                Some(a) => handle < self.assets@.len() && *a == self.assets@[handle as int],
                None => handle >= self.assets@.len(),
            },
    {
        if handle < self.assets.len() {
            Some(&self.assets[handle])
        } else {
            None
        }
    }
}

/// The source data a scene object names is resolvable in the host stores.
pub open spec fn sources_available(
    mesh_assets: MeshAssets,
    bindpose_assets: InverseBindposesAssets,
    mesh_handle: u64,
    inverse_bindposes_handle: u64,
) -> bool {
    mesh_present(mesh_assets, mesh_handle) && bindposes_present(
        bindpose_assets,
        inverse_bindposes_handle,
    )
}

/// The build for this source pair succeeds: the joint count is addressable
/// and every influence names a joint within the bind-pose list.
pub open spec fn build_succeeds(
    mesh_assets: MeshAssets,
    bindpose_assets: InverseBindposesAssets,
    mesh_handle: u64,
    inverse_bindposes_handle: u64,
) -> bool {
    let m = mesh_at(mesh_assets, mesh_handle);
    let b = bindposes_at(bindpose_assets, inverse_bindposes_handle);
    b@.len() <= MAX_JOINT_COUNT && joints_in_range(m, b@.len() as int)
}

/// Exactly what one cache request does: resolve the sources, search the
/// cache, and only then build and publish.  Pins the result and the new
/// store for every case.
pub open spec fn component_op(
    s0: SkinnedAabbAssets,
    s1: SkinnedAabbAssets,
    r: BoundsState,
    mesh_assets: MeshAssets,
    bindpose_assets: InverseBindposesAssets,
    mesh_handle: u64,
    inverse_bindposes_handle: u64,
) -> bool {
    let source = SkinnedAabbSourceAssets {
        mesh: mesh_handle,
        inverse_bindposes: inverse_bindposes_handle,
    };
    if !sources_available(mesh_assets, bindpose_assets, mesh_handle, inverse_bindposes_handle) {
        r == BoundsState::Pending && s1 == s0
    } else if asset_present(s0, source) {
        r == BoundsState::Ready(SkinnedAabb { asset: asset_index_of(s0, source) as usize }) && s1
            == s0
    } else if !build_succeeds(mesh_assets, bindpose_assets, mesh_handle, inverse_bindposes_handle) {
        r == BoundsState::Unavailable && s1 == s0
    } else {
        exists|a: SkinnedAabbAsset|
            {
                &&& s1.assets@ == s0.assets@.push(a)
                &&& r == BoundsState::Ready(SkinnedAabb { asset: s0.assets@.len() as usize })
                &&& a.source == source
                &&& asset_matches(
                    a,
                    mesh_at(mesh_assets, mesh_handle),
                    bindposes_at(bindpose_assets, inverse_bindposes_handle)@,
                )
                &&& asset_wf(a)
            }
    }
}

/// What a scene object's bounds state says about the stores once the
/// creation pass has handled it.
pub open spec fn bounds_post(
    b: BoundsState,
    store: SkinnedAabbAssets,
    mesh_assets: MeshAssets,
    bindpose_assets: InverseBindposesAssets,
    mesh_handle: u64,
    inverse_bindposes_handle: u64,
) -> bool {
    let available = sources_available(
        mesh_assets,
        bindpose_assets,
        mesh_handle,
        inverse_bindposes_handle,
    );
    match b {
        BoundsState::Pending => !available,
        BoundsState::Unavailable => available && !build_succeeds(
            mesh_assets,
            bindpose_assets,
            mesh_handle,
            inverse_bindposes_handle,
        ),
        BoundsState::Ready(c) => {
            &&& available
            &&& c.asset < store.assets@.len()
            &&& store.assets@[c.asset as int].source == (SkinnedAabbSourceAssets {
                mesh: mesh_handle,
                inverse_bindposes: inverse_bindposes_handle,
            })
            &&& asset_matches(
                store.assets@[c.asset as int],
                mesh_at(mesh_assets, mesh_handle),
                bindposes_at(bindpose_assets, inverse_bindposes_handle)@,
            )
            &&& asset_wf(store.assets@[c.asset as int])
        },
    }
}

/// Resolve a scene object's source assets and return its bounds state,
/// reusing a cached asset when one was already built for the same pair.
///
/// Returns `Pending` while a source asset is not resolvable (the caller
/// retries later), `Unavailable` when the source data is faulty, and
/// `Ready` otherwise.
pub fn create_skinned_aabb_component(
    skinned_aabb_assets: &mut SkinnedAabbAssets,
    mesh_assets: &MeshAssets,
    mesh_handle: u64,
    inverse_bindposes_assets: &InverseBindposesAssets,
    inverse_bindposes_handle: u64,
) -> (r: BoundsState)
    requires
        aabb_assets_wf(*old(skinned_aabb_assets)),
        aabb_assets_consistent(*old(skinned_aabb_assets), *mesh_assets, *inverse_bindposes_assets),
        mesh_assets_wf(*mesh_assets),
        bindpose_assets_wf(*inverse_bindposes_assets),
    ensures
        component_op(
            *old(skinned_aabb_assets),
            *final(skinned_aabb_assets),
            r,
            *mesh_assets,
            *inverse_bindposes_assets,
            mesh_handle,
            inverse_bindposes_handle,
        ),
        aabb_assets_wf(*final(skinned_aabb_assets)),
        aabb_assets_consistent(*final(skinned_aabb_assets), *mesh_assets, *inverse_bindposes_assets),
        old(skinned_aabb_assets).assets@.len() <= final(skinned_aabb_assets).assets@.len(),
        forall|i: int|
            0 <= i < old(skinned_aabb_assets).assets@.len() ==> final(skinned_aabb_assets).assets@[i]
                == old(skinned_aabb_assets).assets@[i],
        bounds_post(
            r,
            *final(skinned_aabb_assets),
            *mesh_assets,
            *inverse_bindposes_assets,
            mesh_handle,
            inverse_bindposes_handle,
        ),
{
    let mesh = match mesh_assets.get(mesh_handle) {
        Some(m) => m,
        None => {
            return BoundsState::Pending;
        },
    };
    let inverse_bindposes = match inverse_bindposes_assets.get(inverse_bindposes_handle) {
        Some(b) => b,
        None => {
            return BoundsState::Pending;
        },
    };

    let source = SkinnedAabbSourceAssets {
        mesh: mesh_handle,
        inverse_bindposes: inverse_bindposes_handle,
    };

    // Check for an existing asset built from the same source pair.
    if let Some(existing) = skinned_aabb_assets.find(source) {
        return BoundsState::Ready(SkinnedAabb { asset: existing });
    }

    // No existing asset found, so build a new one.
    match create_skinned_aabb_asset(mesh, mesh_handle, inverse_bindposes, inverse_bindposes_handle) {
        Ok(asset) => {
            let handle = skinned_aabb_assets.assets.len();
            proof {
                assert forall|i: int|
                    0 <= i < skinned_aabb_assets.assets@.len() implies skinned_aabb_assets.assets@[i].source
                    != source by {
                    if skinned_aabb_assets.assets@[i].source == source {
                        lemma_asset_source_unique(*skinned_aabb_assets, source, i);
                    }
                }
            }
            skinned_aabb_assets.assets.push(asset);
            BoundsState::Ready(SkinnedAabb { asset: handle })
        },
        Err(_) => BoundsState::Unavailable,
    }
}

/// One pass step and a repeated one give the same reference and leave the
/// cache unchanged: requesting the same (mesh, bind-pose) pair twice yields
/// the identical single asset, and the cache never grows for the repeat.
pub proof fn lemma_create_component_idempotent(
    s0: SkinnedAabbAssets,
    s1: SkinnedAabbAssets,
    s2: SkinnedAabbAssets,
    r1: BoundsState,
    r2: BoundsState,
    mesh_assets: MeshAssets,
    bindpose_assets: InverseBindposesAssets,
    mesh_handle: u64,
    inverse_bindposes_handle: u64,
)
    requires
        aabb_assets_wf(s0),
        aabb_assets_wf(s1),
        component_op(s0, s1, r1, mesh_assets, bindpose_assets, mesh_handle, inverse_bindposes_handle),
        component_op(s1, s2, r2, mesh_assets, bindpose_assets, mesh_handle, inverse_bindposes_handle),
    ensures
        r2 == r1,
        s2 == s1,
{
    let source = SkinnedAabbSourceAssets {
        mesh: mesh_handle,
        inverse_bindposes: inverse_bindposes_handle,
    };
    if sources_available(mesh_assets, bindpose_assets, mesh_handle, inverse_bindposes_handle) {
        if asset_present(s0, source) {
            assert(s1 == s0);
        } else if build_succeeds(
            mesh_assets,
            bindpose_assets,
            mesh_handle,
            inverse_bindposes_handle,
        ) {
            let a = choose|a: SkinnedAabbAsset|
                {
                    &&& s1.assets@ == s0.assets@.push(a)
                    &&& r1 == BoundsState::Ready(SkinnedAabb { asset: s0.assets@.len() as usize })
                    &&& a.source == source
                    &&& asset_matches(
                        a,
                        mesh_at(mesh_assets, mesh_handle),
                        bindposes_at(bindpose_assets, inverse_bindposes_handle)@,
                    )
                    &&& asset_wf(a)
                };
            let len0 = s0.assets@.len() as int;
            assert(s1.assets@[len0] == a);
            lemma_asset_source_unique(s1, source, len0);
            assert(asset_present(s1, source));
            assert(r2 == BoundsState::Ready(SkinnedAabb { asset: len0 as usize }));
        } else {
            assert(s1 == s0);
            assert(!asset_present(s1, source));
        }
    }
}

/// A scene object: its mesh and skin identity, its bounds state, its current
/// object-from-world transform, and its bounding-box output.
pub struct SceneObject {
    pub mesh: u64,
    pub skin: SkinnedMesh,
    pub bounds: BoundsState,
    pub entity_from_world: Affine3i,
    pub aabb: PackedAabb3d,
}

/// Everything but the bounds state is untouched by the creation pass.
pub open spec fn same_except_bounds(a: SceneObject, b: SceneObject) -> bool {
    &&& b.mesh == a.mesh
    &&& b.skin == a.skin
    &&& b.entity_from_world == a.entity_from_world
    &&& b.aabb == a.aabb
}

/// For every scene object still pending, resolve its sources and attach a
/// bounds state; objects already decided are skipped.  Runs sequentially:
/// each step searches and may extend the shared asset store.
pub fn create_skinned_aabbs(
    objects: &mut Vec<SceneObject>,
    skinned_aabb_assets: &mut SkinnedAabbAssets,
    mesh_assets: &MeshAssets,
    inverse_bindposes_assets: &InverseBindposesAssets,
)
    requires
        aabb_assets_wf(*old(skinned_aabb_assets)),
        aabb_assets_consistent(*old(skinned_aabb_assets), *mesh_assets, *inverse_bindposes_assets),
        mesh_assets_wf(*mesh_assets),
        bindpose_assets_wf(*inverse_bindposes_assets),
    ensures
        aabb_assets_wf(*final(skinned_aabb_assets)),
        aabb_assets_consistent(*final(skinned_aabb_assets), *mesh_assets, *inverse_bindposes_assets),
        old(skinned_aabb_assets).assets@.len() <= final(skinned_aabb_assets).assets@.len(),
        forall|i: int|
            0 <= i < old(skinned_aabb_assets).assets@.len() ==> final(skinned_aabb_assets).assets@[i]
                == old(skinned_aabb_assets).assets@[i],
        final(objects)@.len() == old(objects)@.len(),
        forall|k: int|
            0 <= k < old(objects)@.len() ==> same_except_bounds(
                #[trigger] old(objects)@[k],
                final(objects)@[k],
            ),
        forall|k: int|
            0 <= k < old(objects)@.len() && !(old(objects)@[k].bounds is Pending)
                ==> final(objects)@[k].bounds == old(objects)@[k].bounds,
        forall|k: int|
            0 <= k < old(objects)@.len() && old(objects)@[k].bounds is Pending ==> bounds_post(
                final(objects)@[k].bounds,
                *final(skinned_aabb_assets),
                *mesh_assets,
                *inverse_bindposes_assets,
                old(objects)@[k].mesh,
                old(objects)@[k].skin.inverse_bindposes,
            ),
{
    let n = objects.len();
    let mut k: usize = 0;
    while k < n
        invariant
            n == objects@.len(),
            k <= n,
            objects@.len() == old(objects)@.len(),
            aabb_assets_wf(*skinned_aabb_assets),
            aabb_assets_consistent(*skinned_aabb_assets, *mesh_assets, *inverse_bindposes_assets),
            mesh_assets_wf(*mesh_assets),
            bindpose_assets_wf(*inverse_bindposes_assets),
            old(skinned_aabb_assets).assets@.len() <= skinned_aabb_assets.assets@.len(),
            forall|i: int|
                0 <= i < old(skinned_aabb_assets).assets@.len() ==> skinned_aabb_assets.assets@[i]
                    == old(skinned_aabb_assets).assets@[i],
            forall|j: int| k <= j < n ==> objects@[j] == old(objects)@[j],
            forall|j: int|
                0 <= j < k ==> same_except_bounds(#[trigger] old(objects)@[j], objects@[j]),
            forall|j: int|
                0 <= j < k && !(old(objects)@[j].bounds is Pending) ==> objects@[j].bounds == old(
                    objects,
                )@[j].bounds,
            forall|j: int|
                0 <= j < k && old(objects)@[j].bounds is Pending ==> bounds_post(
                    objects@[j].bounds,
                    *skinned_aabb_assets,
                    *mesh_assets,
                    *inverse_bindposes_assets,
                    old(objects)@[j].mesh,
                    old(objects)@[j].skin.inverse_bindposes,
                ),
        decreases n - k,
    {
        let mesh_handle = objects[k].mesh;
        let inverse_bindposes_handle = objects[k].skin.inverse_bindposes;
        let is_pending = matches!(objects[k].bounds, BoundsState::Pending);
        if is_pending {
            let ghost store_before = *skinned_aabb_assets;
            let state = create_skinned_aabb_component(
                skinned_aabb_assets,
                mesh_assets,
                mesh_handle,
                inverse_bindposes_assets,
                inverse_bindposes_handle,
            );
            objects[k].bounds = state;
            proof {
                // The store only grew, so every earlier object's Ready
                // handle still names the same asset.
                assert forall|j: int|
                    0 <= j < k && old(objects)@[j].bounds is Pending implies bounds_post(
                    objects@[j].bounds,
                    *skinned_aabb_assets,
                    *mesh_assets,
                    *inverse_bindposes_assets,
                    old(objects)@[j].mesh,
                    old(objects)@[j].skin.inverse_bindposes,
                ) by {
                    assert(bounds_post(
                        objects@[j].bounds,
                        store_before,
                        *mesh_assets,
                        *inverse_bindposes_assets,
                        old(objects)@[j].mesh,
                        old(objects)@[j].skin.inverse_bindposes,
                    ));
                }
            }
        }
        k = k + 1;
    }
}

} // verus!
