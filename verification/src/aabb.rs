//! Axis-aligned bounding boxes over exact fixed-point coordinates.

use vstd::math::max;
use vstd::math::min;
use vstd::prelude::*;

verus! {

/// A 3-vector of fixed-point coordinates.
#[derive(Clone, Copy, Debug, PartialEq, Eq, Structural)]
pub struct Vec3i {
    pub x: i64,
    pub y: i64,
    pub z: i64,
}

/// Mathematical model of a `Vec3i`: a vector of unbounded integers.
pub struct SpecVec3 {
    pub x: int,
    pub y: int,
    pub z: int,
}

impl View for Vec3i {
    type V = SpecVec3;

    open spec fn view(&self) -> SpecVec3 {
        SpecVec3 { x: self.x as int, y: self.y as int, z: self.z as int }
    }
}

pub open spec fn svec_le(a: SpecVec3, b: SpecVec3) -> bool {
    a.x <= b.x && a.y <= b.y && a.z <= b.z
}

pub open spec fn svec_min(a: SpecVec3, b: SpecVec3) -> SpecVec3 {
    SpecVec3 { x: min(a.x, b.x), y: min(a.y, b.y), z: min(a.z, b.z) }
}

pub open spec fn svec_max(a: SpecVec3, b: SpecVec3) -> SpecVec3 {
    SpecVec3 { x: max(a.x, b.x), y: max(a.y, b.y), z: max(a.z, b.z) }
}

/// Every component of `v` lies within `[-limit, limit]`.
pub open spec fn svec_in(v: SpecVec3, limit: int) -> bool {
    &&& -limit <= v.x <= limit
    &&& -limit <= v.y <= limit
    &&& -limit <= v.z <= limit
}

/// An axis-aligned box, stored as its two extreme corners.
///
/// A populated box satisfies [`aabb_wf`]; an absent box ("no content yet") is
/// represented as `Option::<PackedAabb3d>::None` by every operation that can
/// encounter one, never as an inverted pair of corners.
#[derive(Clone, Copy, Debug, PartialEq, Eq, Structural)]
pub struct PackedAabb3d {
    pub min: Vec3i,
    pub max: Vec3i,
}

/// Mathematical model of a `PackedAabb3d`.
pub struct SpecAabb3d {
    pub min: SpecVec3,
    pub max: SpecVec3,
}

impl View for PackedAabb3d {
    type V = SpecAabb3d;

    open spec fn view(&self) -> SpecAabb3d {
        SpecAabb3d { min: self.min@, max: self.max@ }
    }
}

/// A well-formed box has its minimum corner at or below its maximum corner on
/// every axis.
pub open spec fn aabb_wf(b: SpecAabb3d) -> bool {
    svec_le(b.min, b.max)
}

pub open spec fn aabb_contains_point(b: SpecAabb3d, p: SpecVec3) -> bool {
    svec_le(b.min, p) && svec_le(p, b.max)
}

pub open spec fn aabb_contains_aabb(outer: SpecAabb3d, inner: SpecAabb3d) -> bool {
    svec_le(outer.min, inner.min) && svec_le(inner.max, outer.max)
}

pub open spec fn aabb_in(b: SpecAabb3d, limit: int) -> bool {
    svec_in(b.min, limit) && svec_in(b.max, limit)
}

/// The box `aabb` grown to include `point`; a point seeds a degenerate box.
pub open spec fn spec_merge_point(aabb: Option<SpecAabb3d>, point: SpecVec3) -> SpecAabb3d {
    match aabb {
        Some(b) => SpecAabb3d { min: svec_min(b.min, point), max: svec_max(b.max, point) },
        None => SpecAabb3d { min: point, max: point },
    }
}

/// The accumulator `acc` grown to include the whole box `b`.
pub open spec fn spec_merge_aabb(acc: Option<SpecAabb3d>, b: SpecAabb3d) -> SpecAabb3d {
    match acc {
        Some(a) => SpecAabb3d { min: svec_min(a.min, b.min), max: svec_max(a.max, b.max) },
        None => b,
    }
}

/// The model of an optional box.
pub open spec fn opt_aabb_view(o: Option<PackedAabb3d>) -> Option<SpecAabb3d> {
    match o {
        Some(b) => Some(b@),
        None => None,
    }
}

/// A box is closed under componentwise intermediate values: any point that
/// lies between two contained points on every axis is itself contained.  In
/// particular every convex blend of contained points stays inside the box.
pub proof fn lemma_aabb_contains_between(b: SpecAabb3d, p: SpecVec3, q: SpecVec3, r: SpecVec3)
    requires
        aabb_contains_point(b, p),
        aabb_contains_point(b, q),
        svec_le(svec_min(p, q), r),
        svec_le(r, svec_max(p, q)),
    ensures
        aabb_contains_point(b, r),
{
}

pub(crate) fn min_i64(a: i64, b: i64) -> (r: i64)
    ensures
        r as int == min(a as int, b as int),
{
    if a < b {
        a
    } else {
        b
    }
}

pub(crate) fn max_i64(a: i64, b: i64) -> (r: i64)
    ensures
        r as int == max(a as int, b as int),
{
    if a > b {
        a
    } else {
        b
    }
}

pub fn vec3_min(a: Vec3i, b: Vec3i) -> (r: Vec3i)
    ensures
        r@ == svec_min(a@, b@),
{
    Vec3i { x: min_i64(a.x, b.x), y: min_i64(a.y, b.y), z: min_i64(a.z, b.z) }
}

pub fn vec3_max(a: Vec3i, b: Vec3i) -> (r: Vec3i)
    ensures
        r@ == svec_max(a@, b@),
{
    Vec3i { x: max_i64(a.x, b.x), y: max_i64(a.y, b.y), z: max_i64(a.z, b.z) }
}

/// Return `aabb` extended to include `point`.  If `aabb` is none, return the
/// degenerate box holding exactly `point`.
pub fn merge(aabb: Option<PackedAabb3d>, point: Vec3i) -> (r: PackedAabb3d)
    ensures
        r@ == spec_merge_point(opt_aabb_view(aabb), point@),
{
    match aabb {
        Some(b) => PackedAabb3d { min: vec3_min(b.min, point), max: vec3_max(b.max, point) },
        None => PackedAabb3d { min: point, max: point },
    }
}

/// Return `acc` extended to include the whole box `b`.
pub fn merge_aabb(acc: Option<PackedAabb3d>, b: PackedAabb3d) -> (r: PackedAabb3d)
    ensures
        r@ == spec_merge_aabb(opt_aabb_view(acc), b@),
{
    match acc {
        Some(a) => PackedAabb3d { min: vec3_min(a.min, b.min), max: vec3_max(a.max, b.max) },
        None => b,
    }
}

} // verus!
