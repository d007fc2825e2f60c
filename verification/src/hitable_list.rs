//! The scene: an ordered collection of primitives that is itself
//! intersectable.
//!
//! The test scans the list linearly, narrowing the far bound of the
//! query interval to the closest hit found so far, so a later primitive
//! can only displace the current hit by being strictly nearer. The fold
//! is mirrored by `scene_prefix_geo`, and `lemma_scene_hit_closest`
//! below shows that what comes out is the closest hit over the whole
//! interval.

use vstd::prelude::*;
use crate::hitable::{hit_geo, Hitable};
use crate::material::scatter_info_ok;
use crate::ray::Ray;
use crate::ray_hit::RayHit;
use crate::rng::Rng;
use crate::vec3::v3;

verus! {

/// An ordered collection of primitives.
#[derive(Clone)]
pub struct HitableList {
    pub list: Vec<Hitable>,
}

/// The geometry reported after folding the first `n` primitives: hit
/// parameter, point, normal, and the index of the primitive that
/// produced it.
pub open spec fn scene_prefix_geo(
    l: Seq<Hitable>,
    n: int,
    ray: Ray,
    t_min: int,
    t_max: int,
) -> Option<(int, (int, int, int), (int, int, int), int)>
    decreases n,
{
    if n <= 0 {
        None
    } else {
        let prev = scene_prefix_geo(l, n - 1, ray, t_min, t_max);
        let cur_max = match prev {
            Some(p) => p.0,
            None => t_max,
        };
        match hit_geo(l[n - 1], ray, t_min, cur_max) {
            Some(g) => Some((g.0, g.1, g.2, n - 1)),
            None => prev,
        }
    }
}

/// The geometry the whole scene reports.
pub open spec fn scene_geo(l: Seq<Hitable>, ray: Ray, t_min: int, t_max: int) -> Option<
    (int, (int, int, int), (int, int, int), int),
> {
    scene_prefix_geo(l, l.len() as int, ray, t_min, t_max)
}

/// Whether an intersection result agrees with a specification-level
/// scene hit: same geometry, a well-formed record inside the interval,
/// and a material response resolved by the winning primitive's material.
pub open spec fn scene_acc_ok(
    l: Seq<Hitable>,
    pre: Option<(int, (int, int, int), (int, int, int), int)>,
    acc: Option<RayHit>,
    ray: Ray,
    t_min: int,
    t_max: int,
) -> bool {
    match pre {
        Some(g) => match acc {
            Some(h) => {
                &&& h.t == g.0
                &&& v3(h.point) == g.1
                &&& v3(h.normal) == g.2
                &&& h.geo_wf()
                &&& t_min < h.t < t_max
                &&& 0 <= g.3 < l.len()
                &&& scatter_info_ok(l[g.3].material_of(), ray, h)
            },
            None => false,
        },
        None => acc.is_none(),
    }
}

/// The fold over a prefix returns the closest hit over the whole
/// interval: it is a hit some primitive of the prefix reports for the
/// full `(t_min, t_max)`, and no primitive of the prefix reports a
/// strictly nearer one.
pub proof fn lemma_scene_prefix_closest(l: Seq<Hitable>, n: int, ray: Ray, t_min: int, t_max: int)
    requires
        0 <= n <= l.len(),
    ensures
        match scene_prefix_geo(l, n, ray, t_min, t_max) {
            Some(g) => {
                &&& 0 <= g.3 < n
                &&& hit_geo(l[g.3], ray, t_min, t_max) == Some((g.0, g.1, g.2))
                &&& t_min < g.0 < t_max
                &&& forall|i: int|
                    0 <= i < n ==> (match #[trigger] hit_geo(l[i], ray, t_min, t_max) {
                        Some(h) => g.0 <= h.0,
                        None => true,
                    })
            },
            None => forall|i: int|
                0 <= i < n ==> (#[trigger] hit_geo(l[i], ray, t_min, t_max)).is_none(),
        },
    decreases n,
{
    if n > 0 {
        lemma_scene_prefix_closest(l, n - 1, ray, t_min, t_max);
        let prev = scene_prefix_geo(l, n - 1, ray, t_min, t_max);
        let cur_max = match prev {
            Some(p) => p.0,
            None => t_max,
        };
        crate::hitable::lemma_hit_geo_window(l[n - 1], ray, t_min, cur_max, t_max);
        crate::hitable::lemma_hit_geo_range(l[n - 1], ray, t_min, t_max);
    }
}

/// What the scene reports is the closest hit over the whole interval:
/// the winning primitive reports exactly this geometry for the full
/// interval, and no primitive in the scene reports a strictly nearer
/// hit; when the scene reports nothing, no primitive hits at all.
pub proof fn lemma_scene_hit_closest(l: Seq<Hitable>, ray: Ray, t_min: int, t_max: int)
    ensures
        match scene_geo(l, ray, t_min, t_max) {
            Some(g) => {
                &&& 0 <= g.3 < l.len()
                &&& hit_geo(l[g.3], ray, t_min, t_max) == Some((g.0, g.1, g.2))
                &&& t_min < g.0 < t_max
                &&& forall|i: int|
                    0 <= i < l.len() ==> (match #[trigger] hit_geo(l[i], ray, t_min, t_max) {
                        Some(h) => g.0 <= h.0,
                        None => true,
                    })
            },
            None => forall|i: int|
                0 <= i < l.len() ==> (#[trigger] hit_geo(l[i], ray, t_min, t_max)).is_none(),
        },
{
    lemma_scene_prefix_closest(l, l.len() as int, ray, t_min, t_max);
}

impl HitableList {
    /// Every primitive in the scene is well formed.
    pub open spec fn wf(self) -> bool {
        forall|i: int| 0 <= i < self.list@.len() ==> (#[trigger] self.list@[i]).wf()
    }

    /// Intersect a ray with every primitive, keeping the closest valid
    /// hit.
    pub fn hit(&self, ray: &Ray, t_min: i64, t_max: i64, rng: &mut Rng) -> (r: Option<RayHit>)
        requires
            self.wf(),
            ray.wf(),
            0 < t_min,
            t_max <= crate::fixed::T_FAR,
        ensures
            scene_acc_ok(
                self.list@,
                scene_geo(self.list@, *ray, t_min as int, t_max as int),
                r,
                *ray,
                t_min as int,
                t_max as int,
            ),
            r.is_some() == scene_geo(self.list@, *ray, t_min as int, t_max as int).is_some(),
            r.is_some() ==> forall|i: int|
                0 <= i < self.list@.len() ==> (match #[trigger] hit_geo(
                    self.list@[i],
                    *ray,
                    t_min as int,
                    t_max as int,
                ) {
                    Some(h) => r.unwrap().t <= h.0,
                    None => true,
                }),
            r.is_none() ==> forall|i: int|
                0 <= i < self.list@.len() ==> (#[trigger] hit_geo(
                    self.list@[i],
                    *ray,
                    t_min as int,
                    t_max as int,
                )).is_none(),
    {
        let mut acc: Option<RayHit> = None;
        let mut i: usize = 0;
        while i < self.list.len()
            invariant
                i <= self.list@.len(),
                self.wf(),
                ray.wf(),
                0 < t_min,
                t_max <= crate::fixed::T_FAR,
                scene_acc_ok(
                    self.list@,
                    scene_prefix_geo(self.list@, i as int, *ray, t_min as int, t_max as int),
                    acc,
                    *ray,
                    t_min as int,
                    t_max as int,
                ),
            decreases self.list@.len() - i,
        {
            let closest: i64 = match &acc {
                Some(h) => h.t,
                None => t_max,
            };
            let cand: Option<RayHit> = self.list[i].hit(ray, t_min, closest, rng);
            match cand {
                Some(h) => {
                    acc = Some(h);
                },
                None => {},
            }
            i = i + 1;
        }
        proof {
            lemma_scene_hit_closest(self.list@, *ray, t_min as int, t_max as int);
        }
        acc
    }
}

} // verus!
