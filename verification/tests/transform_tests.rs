use skinned_aabb::aabb::{merge, merge_aabb, PackedAabb3d, Vec3i};
use skinned_aabb::affine::{aabb_transformed_by, identity, mul_affine, transform_point, Affine3i};

fn v(x: i64, y: i64, z: i64) -> Vec3i {
    Vec3i { x, y, z }
}

fn aabb(min: Vec3i, max: Vec3i) -> PackedAabb3d {
    PackedAabb3d { min, max }
}

fn affine(x_axis: Vec3i, y_axis: Vec3i, z_axis: Vec3i, translation: Vec3i) -> Affine3i {
    Affine3i { x_axis, y_axis, z_axis, translation }
}

#[test]
fn transform_point_applies_basis_and_translation() {
    let t = affine(v(2, 0, 0), v(0, 3, 0), v(1, 0, 1), v(10, 20, 30));
    let p = v(1, 2, 3);
    // 1*(2,0,0) + 2*(0,3,0) + 3*(1,0,1) + (10,20,30)
    assert_eq!(transform_point(&t, &p), v(15, 26, 33));
}

#[test]
fn identity_transform_returns_same_box() {
    let b = aabb(v(-5, -7, 0), v(11, 2, 3));
    assert_eq!(aabb_transformed_by(b, identity()), b);
}

#[test]
fn transformed_box_matches_formula() {
    // Diagonal scale (2, -1, 1) with translation (5, 0, -2).
    let t = affine(v(2, 0, 0), v(0, -1, 0), v(0, 0, 1), v(5, 0, -2));
    let b = aabb(v(-1, -2, 0), v(3, 4, 1));
    let r = aabb_transformed_by(b, t);
    assert_eq!(r, aabb(v(3, -4, -2), v(11, 2, -1)));
}

#[test]
fn composition_with_nonnegative_bases_is_exact() {
    let a = affine(v(2, 0, 0), v(0, 2, 0), v(0, 0, 2), v(1, 2, 3));
    // Swap the x and y axes and translate.
    let b = affine(v(0, 1, 0), v(1, 0, 0), v(0, 0, 1), v(-4, 0, 7));
    let input = aabb(v(-1, 0, 2), v(3, 5, 6));

    let two_step = aabb_transformed_by(aabb_transformed_by(input, a), b);
    let one_step = aabb_transformed_by(input, mul_affine(&b, &a));
    assert_eq!(two_step, one_step);
}

#[test]
fn composition_with_mixed_signs_is_conservative() {
    // A rotation-like basis and its opposite: composing the transforms gives
    // twice the identity, but transforming in two steps widens the box.
    let a = affine(v(1, 1, 0), v(-1, 1, 0), v(0, 0, 1), v(0, 0, 0));
    let b = affine(v(1, -1, 0), v(1, 1, 0), v(0, 0, 1), v(0, 0, 0));
    let input = aabb(v(0, 0, 0), v(1, 1, 1));

    let two_step = aabb_transformed_by(aabb_transformed_by(input, a), b);
    let one_step = aabb_transformed_by(input, mul_affine(&b, &a));

    // One-step: the box scaled by two on x and y.
    assert_eq!(one_step, aabb(v(0, 0, 0), v(2, 2, 1)));
    // Two-step contains it, and is strictly wider on x and y.
    assert!(two_step.min.x <= one_step.min.x && two_step.min.y <= one_step.min.y);
    assert!(two_step.max.x >= one_step.max.x && two_step.max.y >= one_step.max.y);
    assert_eq!(two_step, aabb(v(-1, -1, 0), v(3, 3, 1)));
}

#[test]
fn transformed_box_contains_transformed_points() {
    // Mixed-sign, skewed transform; every corner image must stay inside.
    let t = affine(v(3, -2, 1), v(0, -1, 4), v(-5, 2, 2), v(7, -9, 11));
    let b = aabb(v(-2, -3, -4), v(5, 1, 0));
    let r = aabb_transformed_by(b, t);
    let xs = [b.min.x, b.max.x];
    let ys = [b.min.y, b.max.y];
    let zs = [b.min.z, b.max.z];
    for &x in xs.iter() {
        for &y in ys.iter() {
            for &z in zs.iter() {
                let p = transform_point(&t, &v(x, y, z));
                assert!(r.min.x <= p.x && p.x <= r.max.x);
                assert!(r.min.y <= p.y && p.y <= r.max.y);
                assert!(r.min.z <= p.z && p.z <= r.max.z);
            }
        }
    }
}

#[test]
fn merge_seeds_and_grows() {
    let seeded = merge(None, v(4, -1, 2));
    assert_eq!(seeded, aabb(v(4, -1, 2), v(4, -1, 2)));
    let grown = merge(Some(seeded), v(-3, 5, 2));
    assert_eq!(grown, aabb(v(-3, -1, 2), v(4, 5, 2)));
}

#[test]
fn merge_aabb_takes_componentwise_extremes() {
    let a = aabb(v(0, 0, 0), v(2, 2, 2));
    let b = aabb(v(-1, 1, 1), v(1, 5, 1));
    assert_eq!(merge_aabb(Some(a), b), aabb(v(-1, 0, 0), v(2, 5, 2)));
    assert_eq!(merge_aabb(None, b), b);
}
