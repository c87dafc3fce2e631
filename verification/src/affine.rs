//! Affine transforms over exact fixed-point coordinates, and the
//! box-transform algorithm that maps an axis-aligned box through one.
//!
//! The transform of a box follows Arvo's method: for each output axis, the
//! new extreme is the translation plus, per input axis, whichever of the two
//! products (basis entry times input minimum or maximum) is smaller or
//! larger.  This yields the tightest axis-aligned box containing the image of
//! the input box, for any affine transform, degenerate ones included.

use crate::aabb::aabb_contains_aabb;
use crate::aabb::aabb_contains_point;
use crate::aabb::aabb_in;
use crate::aabb::aabb_wf;
use crate::aabb::svec_in;
use crate::aabb::PackedAabb3d;
use crate::aabb::SpecAabb3d;
use crate::aabb::SpecVec3;
use crate::aabb::Vec3i;
use vstd::math::max;
use vstd::math::min;
use vstd::prelude::*;

verus! {

/// Largest magnitude accepted for raw input coordinates: mesh positions and
/// every entry (basis and translation) of a bind-pose or pose transform.
pub const INPUT_LIMIT: i64 = 16384;

/// Largest magnitude of a basis entry of the product of two input-limited
/// transforms: each entry is a sum of three products of input-limited values.
pub const MATRIX_LIMIT: i64 = 3 * INPUT_LIMIT * INPUT_LIMIT;

/// Largest magnitude of a coordinate produced by applying one input-limited
/// transform to an input-limited point, and of the translation of a product
/// of two input-limited transforms.  Joint-space boxes stay within this.
pub const JOINT_BOX_LIMIT: i64 = MATRIX_LIMIT + INPUT_LIMIT;

/// Largest magnitude of one product formed inside the box transform: a
/// matrix-limited entry times a joint-box-limited coordinate.
const PRODUCT_LIMIT: i64 = 648531540480884736;

/// Largest magnitude of a row sum inside the box transform.
const ROW_LIMIT: i64 = 3 * PRODUCT_LIMIT;
// PRODUCT_LIMIT is the value of MATRIX_LIMIT * JOINT_BOX_LIMIT, written out
// because the solver does not multiply named constants symbolically.

/// An affine transform: three basis columns and a translation.
///
/// Applying it to a point `p` yields
/// `p.x * x_axis + p.y * y_axis + p.z * z_axis + translation`.
#[derive(Clone, Copy, Debug, PartialEq, Eq, Structural)]
pub struct Affine3i {
    pub x_axis: Vec3i,
    pub y_axis: Vec3i,
    pub z_axis: Vec3i,
    pub translation: Vec3i,
}

/// Mathematical model of an `Affine3i`.
pub struct SpecAffine3 {
    pub x_axis: SpecVec3,
    pub y_axis: SpecVec3,
    pub z_axis: SpecVec3,
    pub translation: SpecVec3,
}

impl View for Affine3i {
    type V = SpecAffine3;

    open spec fn view(&self) -> SpecAffine3 {
        SpecAffine3 {
            x_axis: self.x_axis@,
            y_axis: self.y_axis@,
            z_axis: self.z_axis@,
            translation: self.translation@,
        }
    }
}

/// All basis entries of `t` lie within `[-m, m]` and all translation entries
/// within `[-tr, tr]`.
pub open spec fn affine_in(t: SpecAffine3, m: int, tr: int) -> bool {
    &&& svec_in(t.x_axis, m)
    &&& svec_in(t.y_axis, m)
    &&& svec_in(t.z_axis, m)
    &&& svec_in(t.translation, tr)
}

/// Every basis entry of `t` is non-negative (the translation is free).
pub open spec fn affine_nonneg(t: SpecAffine3) -> bool {
    &&& 0 <= t.x_axis.x && 0 <= t.x_axis.y && 0 <= t.x_axis.z
    &&& 0 <= t.y_axis.x && 0 <= t.y_axis.y && 0 <= t.y_axis.z
    &&& 0 <= t.z_axis.x && 0 <= t.z_axis.y && 0 <= t.z_axis.z
}

pub open spec fn spec_identity() -> SpecAffine3 {
    SpecAffine3 {
        x_axis: SpecVec3 { x: 1, y: 0, z: 0 },
        y_axis: SpecVec3 { x: 0, y: 1, z: 0 },
        z_axis: SpecVec3 { x: 0, y: 0, z: 1 },
        translation: SpecVec3 { x: 0, y: 0, z: 0 },
    }
}

/// The linear part of `t` applied to `p` (no translation).
pub open spec fn spec_apply_linear(t: SpecAffine3, p: SpecVec3) -> SpecVec3 {
    SpecVec3 {
        x: t.x_axis.x * p.x + t.y_axis.x * p.y + t.z_axis.x * p.z,
        y: t.x_axis.y * p.x + t.y_axis.y * p.y + t.z_axis.y * p.z,
        z: t.x_axis.z * p.x + t.y_axis.z * p.y + t.z_axis.z * p.z,
    }
}

/// `t` applied to the point `p`.
pub open spec fn spec_apply(t: SpecAffine3, p: SpecVec3) -> SpecVec3 {
    SpecVec3 {
        x: spec_apply_linear(t, p).x + t.translation.x,
        y: spec_apply_linear(t, p).y + t.translation.y,
        z: spec_apply_linear(t, p).z + t.translation.z,
    }
}

/// The transform that applies `inner` first and then `outer`.
pub open spec fn spec_compose(outer: SpecAffine3, inner: SpecAffine3) -> SpecAffine3 {
    SpecAffine3 {
        x_axis: spec_apply_linear(outer, inner.x_axis),
        y_axis: spec_apply_linear(outer, inner.y_axis),
        z_axis: spec_apply_linear(outer, inner.z_axis),
        translation: spec_apply(outer, inner.translation),
    }
}

/// Sum over the input axes of the smaller of the two products of a basis row
/// entry with the box's extremes on that axis.  `rx`, `ry`, `rz` are the
/// entries of one output row of the basis.
pub open spec fn spec_dot_min(rx: int, ry: int, rz: int, b: SpecAabb3d) -> int {
    min(rx * b.min.x, rx * b.max.x) + min(ry * b.min.y, ry * b.max.y) + min(
        rz * b.min.z,
        rz * b.max.z,
    )
}

pub open spec fn spec_dot_max(rx: int, ry: int, rz: int, b: SpecAabb3d) -> int {
    max(rx * b.min.x, rx * b.max.x) + max(ry * b.min.y, ry * b.max.y) + max(
        rz * b.min.z,
        rz * b.max.z,
    )
}

/// The smallest axis-aligned box containing the image of `b` under `t`
/// (Arvo's method).
pub open spec fn spec_aabb_transformed_by(b: SpecAabb3d, t: SpecAffine3) -> SpecAabb3d {
    SpecAabb3d {
        min: SpecVec3 {
            x: t.translation.x + spec_dot_min(t.x_axis.x, t.y_axis.x, t.z_axis.x, b),
            y: t.translation.y + spec_dot_min(t.x_axis.y, t.y_axis.y, t.z_axis.y, b),
            z: t.translation.z + spec_dot_min(t.x_axis.z, t.y_axis.z, t.z_axis.z, b),
        },
        max: SpecVec3 {
            x: t.translation.x + spec_dot_max(t.x_axis.x, t.y_axis.x, t.z_axis.x, b),
            y: t.translation.y + spec_dot_max(t.x_axis.y, t.y_axis.y, t.z_axis.y, b),
            z: t.translation.z + spec_dot_max(t.x_axis.z, t.y_axis.z, t.z_axis.z, b),
        },
    }
}

proof fn lemma_abs_mul(x: int, y: int, bx: int, by: int)
    by (nonlinear_arith)
    requires
        -bx <= x <= bx,
        -by <= y <= by,
    ensures
        -(bx * by) <= x * y <= bx * by,
{
}

/// A product with a coefficient lies between the products with the interval's
/// ends: the scalar heart of the conservatism argument.
proof fn lemma_mul_min_max(c: int, lo: int, v: int, hi: int)
    by (nonlinear_arith)
    requires
        lo <= v <= hi,
    ensures
        min(c * lo, c * hi) <= c * v <= max(c * lo, c * hi),
{
}

/// With a non-negative coefficient the smaller product comes from the lower
/// end and the larger from the upper end.
proof fn lemma_mul_nonneg_coeff(c: int, lo: int, hi: int)
    by (nonlinear_arith)
    requires
        0 <= c,
        lo <= hi,
    ensures
        min(c * lo, c * hi) == c * lo,
        max(c * lo, c * hi) == c * hi,
{
}

/// The identity transform.
pub fn identity() -> (r: Affine3i)
    ensures
        r@ == spec_identity(),
{
    Affine3i {
        x_axis: Vec3i { x: 1, y: 0, z: 0 },
        y_axis: Vec3i { x: 0, y: 1, z: 0 },
        z_axis: Vec3i { x: 0, y: 0, z: 1 },
        translation: Vec3i { x: 0, y: 0, z: 0 },
    }
}

/// Apply `t` to the point `p`.
pub fn transform_point(t: &Affine3i, p: &Vec3i) -> (r: Vec3i)
    requires
        affine_in(t@, INPUT_LIMIT as int, INPUT_LIMIT as int),
        svec_in(p@, INPUT_LIMIT as int),
    ensures
        r@ == spec_apply(t@, p@),
        svec_in(r@, JOINT_BOX_LIMIT as int),
{
    proof {
        lemma_abs_mul(t@.x_axis.x, p@.x, 16384, 16384);
        lemma_abs_mul(t@.y_axis.x, p@.y, 16384, 16384);
        lemma_abs_mul(t@.z_axis.x, p@.z, 16384, 16384);
        lemma_abs_mul(t@.x_axis.y, p@.x, 16384, 16384);
        lemma_abs_mul(t@.y_axis.y, p@.y, 16384, 16384);
        lemma_abs_mul(t@.z_axis.y, p@.z, 16384, 16384);
        lemma_abs_mul(t@.x_axis.z, p@.x, 16384, 16384);
        lemma_abs_mul(t@.y_axis.z, p@.y, 16384, 16384);
        lemma_abs_mul(t@.z_axis.z, p@.z, 16384, 16384);
    }
    Vec3i {
        x: t.x_axis.x * p.x + t.y_axis.x * p.y + t.z_axis.x * p.z + t.translation.x,
        y: t.x_axis.y * p.x + t.y_axis.y * p.y + t.z_axis.y * p.z + t.translation.y,
        z: t.x_axis.z * p.x + t.y_axis.z * p.y + t.z_axis.z * p.z + t.translation.z,
    }
}

fn linear_apply_column(t: &Affine3i, p: &Vec3i) -> (r: Vec3i)
    requires
        affine_in(t@, INPUT_LIMIT as int, INPUT_LIMIT as int),
        svec_in(p@, INPUT_LIMIT as int),
    ensures
        r@ == spec_apply_linear(t@, p@),
        svec_in(r@, MATRIX_LIMIT as int),
{
    proof {
        lemma_abs_mul(t@.x_axis.x, p@.x, 16384, 16384);
        lemma_abs_mul(t@.y_axis.x, p@.y, 16384, 16384);
        lemma_abs_mul(t@.z_axis.x, p@.z, 16384, 16384);
        lemma_abs_mul(t@.x_axis.y, p@.x, 16384, 16384);
        lemma_abs_mul(t@.y_axis.y, p@.y, 16384, 16384);
        lemma_abs_mul(t@.z_axis.y, p@.z, 16384, 16384);
        lemma_abs_mul(t@.x_axis.z, p@.x, 16384, 16384);
        lemma_abs_mul(t@.y_axis.z, p@.y, 16384, 16384);
        lemma_abs_mul(t@.z_axis.z, p@.z, 16384, 16384);
    }
    Vec3i {
        x: t.x_axis.x * p.x + t.y_axis.x * p.y + t.z_axis.x * p.z,
        y: t.x_axis.y * p.x + t.y_axis.y * p.y + t.z_axis.y * p.z,
        z: t.x_axis.z * p.x + t.y_axis.z * p.y + t.z_axis.z * p.z,
    }
}

/// The transform that applies `inner` first and then `outer`.
pub fn mul_affine(outer: &Affine3i, inner: &Affine3i) -> (r: Affine3i)
    requires
        affine_in(outer@, INPUT_LIMIT as int, INPUT_LIMIT as int),
        affine_in(inner@, INPUT_LIMIT as int, INPUT_LIMIT as int),
    ensures
        r@ == spec_compose(outer@, inner@),
        affine_in(r@, MATRIX_LIMIT as int, JOINT_BOX_LIMIT as int),
{
    Affine3i {
        x_axis: linear_apply_column(outer, &inner.x_axis),
        y_axis: linear_apply_column(outer, &inner.y_axis),
        z_axis: linear_apply_column(outer, &inner.z_axis),
        translation: transform_point(outer, &inner.translation),
    }
}

fn dot_min_row(rx: i64, ry: i64, rz: i64, b: &PackedAabb3d) -> (r: i64)
    requires
        -MATRIX_LIMIT <= rx <= MATRIX_LIMIT,
        -MATRIX_LIMIT <= ry <= MATRIX_LIMIT,
        -MATRIX_LIMIT <= rz <= MATRIX_LIMIT,
        aabb_in(b@, JOINT_BOX_LIMIT as int),
    ensures
        r as int == spec_dot_min(rx as int, ry as int, rz as int, b@),
        -ROW_LIMIT <= r <= ROW_LIMIT,
{
    proof {
        lemma_abs_mul(rx as int, b@.min.x, 805306368, 805322752);
        lemma_abs_mul(rx as int, b@.max.x, 805306368, 805322752);
        lemma_abs_mul(ry as int, b@.min.y, 805306368, 805322752);
        lemma_abs_mul(ry as int, b@.max.y, 805306368, 805322752);
        lemma_abs_mul(rz as int, b@.min.z, 805306368, 805322752);
        lemma_abs_mul(rz as int, b@.max.z, 805306368, 805322752);
    }
    let ex = crate::aabb::min_i64(rx * b.min.x, rx * b.max.x);
    let ey = crate::aabb::min_i64(ry * b.min.y, ry * b.max.y);
    let ez = crate::aabb::min_i64(rz * b.min.z, rz * b.max.z);
    ex + ey + ez
}

fn dot_max_row(rx: i64, ry: i64, rz: i64, b: &PackedAabb3d) -> (r: i64)
    requires
        -MATRIX_LIMIT <= rx <= MATRIX_LIMIT,
        -MATRIX_LIMIT <= ry <= MATRIX_LIMIT,
        -MATRIX_LIMIT <= rz <= MATRIX_LIMIT,
        aabb_in(b@, JOINT_BOX_LIMIT as int),
    ensures
        r as int == spec_dot_max(rx as int, ry as int, rz as int, b@),
        -ROW_LIMIT <= r <= ROW_LIMIT,
{
    proof {
        lemma_abs_mul(rx as int, b@.min.x, 805306368, 805322752);
        lemma_abs_mul(rx as int, b@.max.x, 805306368, 805322752);
        lemma_abs_mul(ry as int, b@.min.y, 805306368, 805322752);
        lemma_abs_mul(ry as int, b@.max.y, 805306368, 805322752);
        lemma_abs_mul(rz as int, b@.min.z, 805306368, 805322752);
        lemma_abs_mul(rz as int, b@.max.z, 805306368, 805322752);
    }
    let ex = crate::aabb::max_i64(rx * b.min.x, rx * b.max.x);
    let ey = crate::aabb::max_i64(ry * b.min.y, ry * b.max.y);
    let ez = crate::aabb::max_i64(rz * b.min.z, rz * b.max.z);
    ex + ey + ez
}

/// Return an axis-aligned box that contains the image of `input` under
/// `transform` (Arvo's method).
///
/// The limits admit the transforms that arise in the per-frame update: the
/// product of two input-limited transforms applied to a joint-space box.
pub fn aabb_transformed_by(input: PackedAabb3d, transform: Affine3i) -> (r: PackedAabb3d)
    requires
        aabb_in(input@, JOINT_BOX_LIMIT as int),
        affine_in(transform@, MATRIX_LIMIT as int, JOINT_BOX_LIMIT as int),
    ensures
        r@ == spec_aabb_transformed_by(input@, transform@),
{
    let t = transform.translation;
    let min_x = t.x + dot_min_row(transform.x_axis.x, transform.y_axis.x, transform.z_axis.x, &input);
    let min_y = t.y + dot_min_row(transform.x_axis.y, transform.y_axis.y, transform.z_axis.y, &input);
    let min_z = t.z + dot_min_row(transform.x_axis.z, transform.y_axis.z, transform.z_axis.z, &input);
    let max_x = t.x + dot_max_row(transform.x_axis.x, transform.y_axis.x, transform.z_axis.x, &input);
    let max_y = t.y + dot_max_row(transform.x_axis.y, transform.y_axis.y, transform.z_axis.y, &input);
    let max_z = t.z + dot_max_row(transform.x_axis.z, transform.y_axis.z, transform.z_axis.z, &input);
    PackedAabb3d {
        min: Vec3i { x: min_x, y: min_y, z: min_z },
        max: Vec3i { x: max_x, y: max_y, z: max_z },
    }
}

/// Conservatism: the transformed box contains the image of every point of the
/// input box.
pub proof fn lemma_aabb_transform_contains_point(b: SpecAabb3d, t: SpecAffine3, p: SpecVec3)
    requires
        aabb_contains_point(b, p),
    ensures
        aabb_contains_point(spec_aabb_transformed_by(b, t), spec_apply(t, p)),
{
    lemma_mul_min_max(t.x_axis.x, b.min.x, p.x, b.max.x);
    lemma_mul_min_max(t.y_axis.x, b.min.y, p.y, b.max.y);
    lemma_mul_min_max(t.z_axis.x, b.min.z, p.z, b.max.z);
    lemma_mul_min_max(t.x_axis.y, b.min.x, p.x, b.max.x);
    lemma_mul_min_max(t.y_axis.y, b.min.y, p.y, b.max.y);
    lemma_mul_min_max(t.z_axis.y, b.min.z, p.z, b.max.z);
    lemma_mul_min_max(t.x_axis.z, b.min.x, p.x, b.max.x);
    lemma_mul_min_max(t.y_axis.z, b.min.y, p.y, b.max.y);
    lemma_mul_min_max(t.z_axis.z, b.min.z, p.z, b.max.z);
}

/// The transform of a well-formed box is well-formed.
pub proof fn lemma_aabb_transform_wf(b: SpecAabb3d, t: SpecAffine3)
    requires
        aabb_wf(b),
    ensures
        aabb_wf(spec_aabb_transformed_by(b, t)),
{
}

/// Transforming a box by the identity transform returns the same box.
pub proof fn lemma_aabb_transform_identity(b: SpecAabb3d)
    requires
        aabb_wf(b),
    ensures
        spec_aabb_transformed_by(b, spec_identity()) == b,
{
}

/// Composing two transforms and transforming a box agrees with applying a
/// point transform twice.
proof fn lemma_compose_apply(outer: SpecAffine3, inner: SpecAffine3, p: SpecVec3)
    ensures
        spec_apply(spec_compose(outer, inner), p) == spec_apply(outer, spec_apply(inner, p)),
{
    broadcast use vstd::arithmetic::mul::group_mul_is_commutative_and_distributive;
    broadcast use vstd::arithmetic::mul::lemma_mul_is_associative;
}

/// Under a transform whose basis entries are all non-negative, the
/// transformed box's corners are exactly the images of the input corners.
proof fn lemma_aabb_transform_nonneg_corners(b: SpecAabb3d, t: SpecAffine3)
    requires
        aabb_wf(b),
        affine_nonneg(t),
    ensures
        spec_aabb_transformed_by(b, t).min == spec_apply(t, b.min),
        spec_aabb_transformed_by(b, t).max == spec_apply(t, b.max),
{
    lemma_mul_nonneg_coeff(t.x_axis.x, b.min.x, b.max.x);
    lemma_mul_nonneg_coeff(t.y_axis.x, b.min.y, b.max.y);
    lemma_mul_nonneg_coeff(t.z_axis.x, b.min.z, b.max.z);
    lemma_mul_nonneg_coeff(t.x_axis.y, b.min.x, b.max.x);
    lemma_mul_nonneg_coeff(t.y_axis.y, b.min.y, b.max.y);
    lemma_mul_nonneg_coeff(t.z_axis.y, b.min.z, b.max.z);
    lemma_mul_nonneg_coeff(t.x_axis.z, b.min.x, b.max.x);
    lemma_mul_nonneg_coeff(t.y_axis.z, b.min.y, b.max.y);
    lemma_mul_nonneg_coeff(t.z_axis.z, b.min.z, b.max.z);
}

/// The basis of the product of two transforms with non-negative bases is
/// non-negative.
proof fn lemma_compose_nonneg(outer: SpecAffine3, inner: SpecAffine3)
    by (nonlinear_arith)
    requires
        affine_nonneg(outer),
        affine_nonneg(inner),
    ensures
        affine_nonneg(spec_compose(outer, inner)),
{
}

/// Composition law: for transforms whose basis entries are all non-negative,
/// transforming a box by `inner` and then by `outer` gives exactly the box
/// transformed once by the composed transform.
///
/// The restriction to non-negative bases is necessary: with mixed-sign
/// entries the two-step box can only be said to contain the one-step box
/// ([`lemma_aabb_transform_compose_conservative`]), because the intermediate
/// axis-aligned box already over-approximates the rotated shape.
pub proof fn lemma_aabb_transform_compose(outer: SpecAffine3, inner: SpecAffine3, b: SpecAabb3d)
    requires
        aabb_wf(b),
        affine_nonneg(outer),
        affine_nonneg(inner),
    ensures
        spec_aabb_transformed_by(spec_aabb_transformed_by(b, inner), outer)
            == spec_aabb_transformed_by(b, spec_compose(outer, inner)),
{
    let mid = spec_aabb_transformed_by(b, inner);
    let composed = spec_compose(outer, inner);
    lemma_aabb_transform_wf(b, inner);
    lemma_aabb_transform_nonneg_corners(b, inner);
    lemma_aabb_transform_nonneg_corners(mid, outer);
    lemma_compose_nonneg(outer, inner);
    lemma_aabb_transform_nonneg_corners(b, composed);
    lemma_compose_apply(outer, inner, b.min);
    lemma_compose_apply(outer, inner, b.max);
}

/// The corner of `b` whose image attains the transformed box's minimum on the
/// row `(rx, ry, rz)`.
spec fn min_corner(rx: int, ry: int, rz: int, b: SpecAabb3d) -> SpecVec3 {
    SpecVec3 {
        x: if rx >= 0 {
            b.min.x
        } else {
            b.max.x
        },
        y: if ry >= 0 {
            b.min.y
        } else {
            b.max.y
        },
        z: if rz >= 0 {
            b.min.z
        } else {
            b.max.z
        },
    }
}

spec fn max_corner(rx: int, ry: int, rz: int, b: SpecAabb3d) -> SpecVec3 {
    SpecVec3 {
        x: if rx >= 0 {
            b.max.x
        } else {
            b.min.x
        },
        y: if ry >= 0 {
            b.max.y
        } else {
            b.min.y
        },
        z: if rz >= 0 {
            b.max.z
        } else {
            b.min.z
        },
    }
}

proof fn lemma_min_corner(rx: int, ry: int, rz: int, b: SpecAabb3d)
    requires
        aabb_wf(b),
    ensures
        aabb_contains_point(b, min_corner(rx, ry, rz, b)),
        rx * min_corner(rx, ry, rz, b).x + ry * min_corner(rx, ry, rz, b).y + rz * min_corner(
            rx,
            ry,
            rz,
            b,
        ).z == spec_dot_min(rx, ry, rz, b),
{
    let q = min_corner(rx, ry, rz, b);
    assert(rx * q.x == min(rx * b.min.x, rx * b.max.x)) by (nonlinear_arith)
        requires
            b.min.x <= b.max.x,
            q == min_corner(rx, ry, rz, b),
            q.x == (if rx >= 0 { b.min.x } else { b.max.x }),
    ;
    assert(ry * q.y == min(ry * b.min.y, ry * b.max.y)) by (nonlinear_arith)
        requires
            b.min.y <= b.max.y,
            q.y == (if ry >= 0 { b.min.y } else { b.max.y }),
    ;
    assert(rz * q.z == min(rz * b.min.z, rz * b.max.z)) by (nonlinear_arith)
        requires
            b.min.z <= b.max.z,
            q.z == (if rz >= 0 { b.min.z } else { b.max.z }),
    ;
}

proof fn lemma_max_corner(rx: int, ry: int, rz: int, b: SpecAabb3d)
    requires
        aabb_wf(b),
    ensures
        aabb_contains_point(b, max_corner(rx, ry, rz, b)),
        rx * max_corner(rx, ry, rz, b).x + ry * max_corner(rx, ry, rz, b).y + rz * max_corner(
            rx,
            ry,
            rz,
            b,
        ).z == spec_dot_max(rx, ry, rz, b),
{
    let q = max_corner(rx, ry, rz, b);
    assert(rx * q.x == max(rx * b.min.x, rx * b.max.x)) by (nonlinear_arith)
        requires
            b.min.x <= b.max.x,
            q.x == (if rx >= 0 { b.max.x } else { b.min.x }),
    ;
    assert(ry * q.y == max(ry * b.min.y, ry * b.max.y)) by (nonlinear_arith)
        requires
            b.min.y <= b.max.y,
            q.y == (if ry >= 0 { b.max.y } else { b.min.y }),
    ;
    assert(rz * q.z == max(rz * b.min.z, rz * b.max.z)) by (nonlinear_arith)
        requires
            b.min.z <= b.max.z,
            q.z == (if rz >= 0 { b.max.z } else { b.min.z }),
    ;
}

/// Conservatism of two-step transformation: for any two transforms,
/// transforming a box by `inner` and then by `outer` yields a box that
/// contains the box transformed once by the composed transform.
pub proof fn lemma_aabb_transform_compose_conservative(
    outer: SpecAffine3,
    inner: SpecAffine3,
    b: SpecAabb3d,
)
    requires
        aabb_wf(b),
    ensures
        aabb_contains_aabb(
            spec_aabb_transformed_by(spec_aabb_transformed_by(b, inner), outer),
            spec_aabb_transformed_by(b, spec_compose(outer, inner)),
        ),
{
    let composed = spec_compose(outer, inner);
    let two_step = spec_aabb_transformed_by(spec_aabb_transformed_by(b, inner), outer);
    let one_step = spec_aabb_transformed_by(b, composed);

    let qx = min_corner(composed.x_axis.x, composed.y_axis.x, composed.z_axis.x, b);
    lemma_min_corner(composed.x_axis.x, composed.y_axis.x, composed.z_axis.x, b);
    lemma_two_step_contains_apply(outer, inner, b, qx);
    assert(one_step.min.x == spec_apply(composed, qx).x);

    let qy = min_corner(composed.x_axis.y, composed.y_axis.y, composed.z_axis.y, b);
    lemma_min_corner(composed.x_axis.y, composed.y_axis.y, composed.z_axis.y, b);
    lemma_two_step_contains_apply(outer, inner, b, qy);
    assert(one_step.min.y == spec_apply(composed, qy).y);

    let qz = min_corner(composed.x_axis.z, composed.y_axis.z, composed.z_axis.z, b);
    lemma_min_corner(composed.x_axis.z, composed.y_axis.z, composed.z_axis.z, b);
    lemma_two_step_contains_apply(outer, inner, b, qz);
    assert(one_step.min.z == spec_apply(composed, qz).z);

    let px = max_corner(composed.x_axis.x, composed.y_axis.x, composed.z_axis.x, b);
    lemma_max_corner(composed.x_axis.x, composed.y_axis.x, composed.z_axis.x, b);
    lemma_two_step_contains_apply(outer, inner, b, px);
    assert(one_step.max.x == spec_apply(composed, px).x);

    let py = max_corner(composed.x_axis.y, composed.y_axis.y, composed.z_axis.y, b);
    lemma_max_corner(composed.x_axis.y, composed.y_axis.y, composed.z_axis.y, b);
    lemma_two_step_contains_apply(outer, inner, b, py);
    assert(one_step.max.y == spec_apply(composed, py).y);

    let pz = max_corner(composed.x_axis.z, composed.y_axis.z, composed.z_axis.z, b);
    lemma_max_corner(composed.x_axis.z, composed.y_axis.z, composed.z_axis.z, b);
    lemma_two_step_contains_apply(outer, inner, b, pz);
    assert(one_step.max.z == spec_apply(composed, pz).z);
}

/// The image under the composed transform of any point of `b` lies inside
/// the two-step transformed box.
proof fn lemma_two_step_contains_apply(
    outer: SpecAffine3,
    inner: SpecAffine3,
    b: SpecAabb3d,
    p: SpecVec3,
)
    requires
        aabb_contains_point(b, p),
    ensures
        aabb_contains_point(
            spec_aabb_transformed_by(spec_aabb_transformed_by(b, inner), outer),
            spec_apply(spec_compose(outer, inner), p),
        ),
{
    lemma_aabb_transform_contains_point(b, inner, p);
    lemma_aabb_transform_contains_point(spec_aabb_transformed_by(b, inner), outer, spec_apply(inner, p));
    lemma_compose_apply(outer, inner, p);
}

} // verus!
