use skinned_aabb::dev::{
    hash, RandomMeshAnimation, RandomMeshError, RandomSkinnedMeshType, SkinError,
};
use skinned_aabb::update::SkinnedAabbPluginSettings;

#[test]
fn animation_keeps_its_seed() {
    let animation = RandomMeshAnimation::new(732935);
    assert_eq!(animation.noise.seed, 732935);
}

#[test]
fn hash_is_deterministic_within_a_process() {
    assert_eq!(hash(42u64), hash(42u64));
    assert_eq!(hash("joint"), hash("joint"));
}

#[test]
fn dev_enums_carry_their_variants() {
    let e = RandomMeshError::InvalidNumJoints;
    assert_eq!(e, RandomMeshError::InvalidNumJoints);
    let soft = RandomSkinnedMeshType::Soft { num_tris: 100 };
    assert!(matches!(soft, RandomSkinnedMeshType::Soft { num_tris: 100 }));
    assert!(matches!(RandomSkinnedMeshType::Hard, RandomSkinnedMeshType::Hard));
    assert_ne!(SkinError::MismatchedArrayLengths, SkinError::InvalidJointIndex);
    assert_ne!(SkinError::UnknownLayout, SkinError::Unsupported);
}

#[test]
fn update_defaults_to_parallel() {
    let settings = SkinnedAabbPluginSettings::default();
    assert!(settings.parallel);
}
