//! The scene aggregate: an ordered list of primitives, queried for the
//! closest intersection by shrinking the acceptance window as hits are found.

use vstd::prelude::*;
use crate::fixed::fx_ok;
use crate::ray::{Ray, ray_ok};
use crate::hittable::{Hittable, HitRecord, hittable_ok, rec_ok, spec_hittable_hit};

verus! {

#[derive(Debug)]
pub struct HittableList {
    pub objects: Vec<Hittable>,
}

pub open spec fn list_ok(l: HittableList) -> bool {
    forall|i: int| 0 <= i < l.objects@.len() ==> hittable_ok(#[trigger] l.objects@[i])
}

/// The closest accepted hit among the members from index `i` on, given the
/// best hit found so far and the shrunken upper bound of its parameter.
pub open spec fn spec_list_hit_from(
    objs: Seq<Hittable>,
    i: int,
    r: Ray,
    t_min: i64,
    closest: i64,
    best: Option<HitRecord>,
) -> Option<HitRecord>
    decreases objs.len() - i,
{
    if i < 0 || i >= objs.len() {
        best
    } else {
        match spec_hittable_hit(objs[i], r, t_min, closest) {
            Some(rec) => spec_list_hit_from(objs, i + 1, r, t_min, rec.t, Some(rec)),
            None => spec_list_hit_from(objs, i + 1, r, t_min, closest, best),
        }
    }
}

/// The closest intersection of `r` with any member, if any.
pub open spec fn spec_list_hit(objs: Seq<Hittable>, r: Ray, t_min: i64, t_max: i64) -> Option<
    HitRecord,
> {
    spec_list_hit_from(objs, 0, r, t_min, t_max, None)
}

impl Default for HittableList {
    /// An empty scene.
    fn default() -> (r: HittableList)
        ensures
            r.objects@ == Seq::<Hittable>::empty(),
            list_ok(r),
    {
        HittableList { objects: Vec::new() }
    }
}

impl HittableList {
    /// An empty scene.
    pub fn new() -> (r: HittableList)
        ensures
            r.objects@ == Seq::<Hittable>::empty(),
            list_ok(r),
    {
        HittableList { objects: Vec::new() }
    }

    pub fn add(&mut self, object: Hittable)
        requires
            hittable_ok(object),
        ensures
            final(self).objects@ == old(self).objects@.push(object),
            list_ok(*old(self)) ==> list_ok(*final(self)),
    {
        self.objects.push(object);
    }

    pub fn clear(&mut self)
        ensures
            final(self).objects@ == Seq::<Hittable>::empty(),
            list_ok(*final(self)),
    {
        self.objects.clear();
    }

    /// The closest member intersection with parameter in `[t_min, t_max]`;
    /// the window's upper bound shrinks to each accepted hit, which discards
    /// farther intersections in one pass.
    pub fn hit(&self, r: &Ray, t_min: i64, t_max: i64) -> (result: Option<HitRecord>)
        requires
            list_ok(*self),
            ray_ok(*r),
            fx_ok(t_min),
            fx_ok(t_max),
        ensures
            result == spec_list_hit(self.objects@, *r, t_min, t_max),
            result matches Some(rec) ==> rec_ok(rec),
    {
        let ghost objs = self.objects@;
        let mut best: Option<HitRecord> = None;
        let mut closest_so_far: i64 = t_max;
        let mut i: usize = 0;
        while i < self.objects.len()
            invariant
                list_ok(*self),
                ray_ok(*r),
                fx_ok(t_min),
                fx_ok(closest_so_far),
                objs == self.objects@,
                0 <= i <= objs.len(),
                spec_list_hit(objs, *r, t_min, t_max) == spec_list_hit_from(
                    objs,
                    i as int,
                    *r,
                    t_min,
                    closest_so_far,
                    best,
                ),
                best matches Some(rec) ==> rec_ok(rec),
            decreases objs.len() - i,
        {
            match self.objects[i].hit(r, t_min, closest_so_far) {
                Some(rec) => {
                    closest_so_far = rec.t;
                    best = Some(rec);
                },
                None => {},
            }
            i = i + 1;
        }
        best
    }
}

/// Any hit the aggregate reports lies inside the requested window: a
/// candidate outside `[t_min, t_max]` is rejected, and the window only
/// shrinks as closer hits are found.
pub proof fn lemma_list_hit_in_window(objs: Seq<Hittable>, r: Ray, t_min: i64, t_max: i64)
    ensures
        spec_list_hit(objs, r, t_min, t_max) matches Some(rec) ==> t_min <= rec.t <= t_max,
{
    lemma_list_hit_from_in_window(objs, 0, r, t_min, t_max, None);
}

proof fn lemma_list_hit_from_in_window(
    objs: Seq<Hittable>,
    i: int,
    r: Ray,
    t_min: i64,
    closest: i64,
    best: Option<HitRecord>,
)
    requires
        best matches Some(b) ==> t_min <= b.t <= closest,
    ensures
        spec_list_hit_from(objs, i, r, t_min, closest, best) matches Some(rec) ==> t_min <= rec.t
            <= closest,
    decreases objs.len() - i,
{
    if 0 <= i < objs.len() {
        match spec_hittable_hit(objs[i], r, t_min, closest) {
            Some(rec) => {
                match objs[i] {
                    Hittable::Sphere(s) => {
                        crate::sphere::lemma_sphere_hit_in_window(s, r, t_min, closest);
                    },
                }
                lemma_list_hit_from_in_window(objs, i + 1, r, t_min, rec.t, Some(rec));
            },
            None => {
                lemma_list_hit_from_in_window(objs, i + 1, r, t_min, closest, best);
            },
        }
    }
}

/// The parameter of an optional hit; unhit queries count as infinitely far.
pub open spec fn spec_hit_t(o: Option<HitRecord>) -> int {
    match o {
        Some(rec) => rec.t as int,
        None => 0x7FFF_FFFF_FFFF_FFFFint + 1,
    }
}

/// The aggregate really finds the closest intersection.  A reported hit is
/// exactly some member's own hit over the full window; no member's hit over
/// the full window is closer; and when the aggregate reports a miss, every
/// member misses.
pub proof fn lemma_list_hit_closest(objs: Seq<Hittable>, r: Ray, t_min: i64, t_max: i64)
    ensures
        spec_list_hit(objs, r, t_min, t_max) matches Some(rec) ==> exists|i: int|
            0 <= i < objs.len() && spec_hittable_hit(objs[i], r, t_min, t_max) == Some(rec),
        forall|j: int|
            0 <= j < objs.len() && (#[trigger] spec_hittable_hit(objs[j], r, t_min, t_max))
                is Some ==> spec_list_hit(objs, r, t_min, t_max) is Some && spec_hit_t(
                spec_list_hit(objs, r, t_min, t_max),
            ) <= spec_hit_t(spec_hittable_hit(objs[j], r, t_min, t_max)),
{
    lemma_list_fold_closest(objs, 0, r, t_min, t_max, t_max, None);
}

/// The induction behind `lemma_list_hit_closest`, over the fold that tries
/// the members from index `i` on with the shrunken window `closest`.
#[verifier::rlimit(100)]
#[verifier::spinoff_prover]
proof fn lemma_list_fold_closest(
    objs: Seq<Hittable>,
    i: int,
    r: Ray,
    t_min: i64,
    t_max: i64,
    closest: i64,
    best: Option<HitRecord>,
)
    requires
        0 <= i,
        best is None ==> closest == t_max,
        best matches Some(b) ==> b.t == closest && closest <= t_max,
    ensures
        ({
            let res = spec_list_hit_from(objs, i, r, t_min, closest, best);
            &&& res is None ==> best is None
            &&& best is Some ==> res is Some
            &&& res matches Some(rc) ==> rc.t <= closest
            &&& res matches Some(rc) ==> ((best matches Some(b) && rc == b) || exists|i2: int|
                i <= i2 < objs.len() && spec_hittable_hit(objs[i2], r, t_min, t_max) == Some(rc))
            &&& forall|j: int|
                i <= j < objs.len() && (#[trigger] spec_hittable_hit(objs[j], r, t_min, t_max))
                    is Some ==> res is Some && spec_hit_t(res) <= spec_hit_t(
                    spec_hittable_hit(objs[j], r, t_min, t_max),
                )
        }),
    decreases objs.len() - i,
{
    let res = spec_list_hit_from(objs, i, r, t_min, closest, best);
    if i < objs.len() {
        let h = objs[i];
        match spec_hittable_hit(h, r, t_min, closest) {
            Some(rec) => {
                match h {
                    Hittable::Sphere(sp) => {
                        crate::sphere::lemma_sphere_hit_in_window(sp, r, t_min, closest);
                        crate::sphere::lemma_sphere_hit_grow(sp, r, t_min, closest, t_max);
                    },
                }
                assert(spec_hittable_hit(h, r, t_min, t_max) == Some(rec));
                lemma_list_fold_closest(objs, i + 1, r, t_min, t_max, rec.t, Some(rec));
                let res2 = spec_list_hit_from(objs, i + 1, r, t_min, rec.t, Some(rec));
                assert(res == res2);
                match res2 {
                    Some(rc) => if !(rc == rec) {
                        let i2c = choose|i2: int|
                            i + 1 <= i2 < objs.len() && spec_hittable_hit(
                                objs[i2],
                                r,
                                t_min,
                                t_max,
                            ) == Some(rc);
                        assert(i <= i2c < objs.len() && spec_hittable_hit(
                            objs[i2c],
                            r,
                            t_min,
                            t_max,
                        ) == Some(rc));
                    },
                    None => {},
                }
            },
            None => {
                lemma_list_fold_closest(objs, i + 1, r, t_min, t_max, closest, best);
                match spec_hittable_hit(h, r, t_min, t_max) {
                    Some(ri) => {
                        match h {
                            Hittable::Sphere(sp) => {
                                crate::sphere::lemma_sphere_hit_in_window(sp, r, t_min, t_max);
                                if ri.t <= closest {
                                    crate::sphere::lemma_sphere_hit_shrink(
                                        sp,
                                        r,
                                        t_min,
                                        t_max,
                                        closest,
                                    );
                                    assert(false);
                                }
                            },
                        }
                        assert(ri.t > closest);
                        assert(best is Some);
                    },
                    None => {},
                }
                match res {
                    Some(rc) => if !(best matches Some(b) && rc == b) {
                        let i2c = choose|i2: int|
                            i + 1 <= i2 < objs.len() && spec_hittable_hit(
                                objs[i2],
                                r,
                                t_min,
                                t_max,
                            ) == Some(rc);
                        assert(i <= i2c < objs.len() && spec_hittable_hit(
                            objs[i2c],
                            r,
                            t_min,
                            t_max,
                        ) == Some(rc));
                    },
                    None => {},
                }
            },
        }
    }
}

} // verus!
