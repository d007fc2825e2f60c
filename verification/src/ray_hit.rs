//! The record produced by a successful ray/primitive intersection test.

use vstd::prelude::*;
use crate::material::MaterialHitInfo;
use crate::vec3::Vec3;

verus! {

/// A hit: the ray parameter, the point reached, the surface normal there,
/// and the material response resolved at the intersection boundary.
#[derive(Clone, Copy)]
pub struct RayHit {
    pub t: i64,
    pub point: Vec3,
    pub normal: Vec3,
    pub material: Option<MaterialHitInfo>,
}

/// Restrict a hit to a narrower far bound: it survives exactly when its
/// parameter lies below the bound.
pub open spec fn clip_hit(
    g: Option<(int, (int, int, int), (int, int, int))>,
    m: int,
) -> Option<(int, (int, int, int), (int, int, int))> {
    match g {
        Some(gv) => if gv.0 < m {
            Some(gv)
        } else {
            None
        },
        None => None,
    }
}

/// Whether an intersection result carries exactly the geometry that a
/// specification-level hit describes.
pub open spec fn geo_matches(
    g: Option<(int, (int, int, int), (int, int, int))>,
    r: Option<RayHit>,
) -> bool {
    match g {
        Some(gv) => match r {
            Some(h) => h.t == gv.0 && crate::vec3::v3(h.point) == gv.1 && crate::vec3::v3(h.normal)
                == gv.2,
            None => false,
        },
        None => r.is_none(),
    }
}

impl RayHit {
    /// The geometric part of the record is in the tracer's working range.
    pub open spec fn geo_wf(self) -> bool {
        &&& 0 < self.t
        &&& self.point.bounded(crate::fixed::POINT_MAX as int)
        &&& self.normal.bounded(crate::fixed::UNIT_MAX as int)
    }

    pub fn new(t: i64, point: Vec3, normal: Vec3, material: Option<MaterialHitInfo>) -> (r: RayHit)
        ensures
            r == (RayHit { t, point, normal, material }),
    {
        RayHit { t, point, normal, material }
    }

    /// An empty record, to be filled in by an intersection test.
    pub fn init() -> (r: RayHit)
        ensures
            r.t == 0,
            r.point == (Vec3 { x: 0i64, y: 0i64, z: 0i64 }),
            r.normal == (Vec3 { x: 0i64, y: 0i64, z: 0i64 }),
            r.material.is_none(),
    {
        RayHit {
            t: 0,
            point: Vec3 { x: 0, y: 0, z: 0 },
            normal: Vec3 { x: 0, y: 0, z: 0 },
            material: None,
        }
    }
}

} // verus!
