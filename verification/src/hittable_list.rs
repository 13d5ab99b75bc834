//! The scene: an ordered collection of spheres scanned linearly, the
//! nearest qualifying intersection winning.

use vstd::prelude::*;

use crate::hittable::{HitRecord, HitV, Hittable};
use crate::num::{lemma_q_lt_trans, q_le, q_lt, q_wf, Q, Rat};
use crate::ray::{Ray, RayV};
use crate::sphere::{sphere_hit_model, Sphere};

verus! {

/// The linear scan with a shrinking upper bound, one member at a time: the
/// window of each test is capped by the best parameter found so far.
pub open spec fn list_fold(
    objs: Seq<Sphere>,
    ray: RayV,
    t_min: Q,
    t_max: Q,
    i: int,
    best: Option<HitV>,
) -> Option<HitV>
    decreases objs.len() - i,
{
    if i < 0 || i >= objs.len() {
        best
    } else {
        let window = match best {
            Some(h) => h.t,
            None => t_max,
        };
        match sphere_hit_model(objs[i], ray, t_min, window) {
            Some(h) => list_fold(objs, ray, t_min, t_max, i + 1, Some(h)),
            None => list_fold(objs, ray, t_min, t_max, i + 1, best),
        }
    }
}

/// What the scene's hit test returns.
pub open spec fn list_hit_model(objs: Seq<Sphere>, ray: RayV, t_min: Q, t_max: Q) -> Option<
    HitV,
> {
    list_fold(objs, ray, t_min, t_max, 0, None)
}

/// The induction behind the nearest-hit law: a running best that is the
/// nearest full-window hit of the prefix stays so through the fold.
#[verifier::rlimit(100)]
#[verifier::spinoff_prover]
proof fn lemma_fold_nearest(
    objs: Seq<Sphere>,
    ray: RayV,
    t_min: Q,
    t_max: Q,
    i: int,
    best: Option<HitV>,
)
    requires
        0 <= i <= objs.len(),
        forall|k: int| 0 <= k < objs.len() ==> (#[trigger] objs[k]).wf(),
        crate::ray::rayv_wf(ray),
        q_wf(t_min),
        q_wf(t_max),
        best matches Some(h) ==> q_wf(h.t) && q_lt(h.t, t_max) && (exists|k: int|
            0 <= k < i && #[trigger] sphere_hit_model(objs[k], ray, t_min, t_max) == best) && (
        forall|k: int|
            0 <= k < i && (#[trigger] sphere_hit_model(objs[k], ray, t_min, t_max)) is Some
                ==> q_le(h.t, sphere_hit_model(objs[k], ray, t_min, t_max)->Some_0.t)),
        best is None ==> forall|k: int|
            0 <= k < i ==> (#[trigger] sphere_hit_model(objs[k], ray, t_min, t_max)) is None,
    ensures
        list_fold(objs, ray, t_min, t_max, i, best) matches Some(h) ==> (exists|k: int|
            0 <= k < objs.len() && #[trigger] sphere_hit_model(objs[k], ray, t_min, t_max)
                == list_fold(objs, ray, t_min, t_max, i, best)) && (forall|k: int|
            0 <= k < objs.len() && (#[trigger] sphere_hit_model(objs[k], ray, t_min, t_max))
                is Some ==> q_le(h.t, sphere_hit_model(objs[k], ray, t_min, t_max)->Some_0.t)),
        list_fold(objs, ray, t_min, t_max, i, best) is None ==> forall|k: int|
            0 <= k < objs.len() ==> (#[trigger] sphere_hit_model(objs[k], ray, t_min, t_max))
                is None,
    decreases objs.len() - i,
{
    if i == objs.len() {
    } else {
        let s = objs[i];
        match best {
            None => {
                let m = sphere_hit_model(s, ray, t_min, t_max);
                crate::sphere::lemma_sphere_model_range(s, ray, t_min, t_max);
                match m {
                    Some(h) => {
                        assert(sphere_hit_model(objs[i], ray, t_min, t_max) == m);
                        lemma_fold_nearest(objs, ray, t_min, t_max, i + 1, Some(h));
                    },
                    None => {
                        lemma_fold_nearest(objs, ray, t_min, t_max, i + 1, None);
                    },
                }
            },
            Some(hb) => {
                let mb = sphere_hit_model(s, ray, t_min, hb.t);
                let mfull = sphere_hit_model(s, ray, t_min, t_max);
                crate::sphere::lemma_sphere_hit_window(s, ray, t_min, hb.t, t_max);
                crate::sphere::lemma_sphere_model_range(s, ray, t_min, hb.t);
                crate::sphere::lemma_sphere_model_range(s, ray, t_min, t_max);
                match mb {
                    Some(hn) => {
                        // The shrunk window found something nearer; it is
                        // also the full-window hit of this sphere.
                        assert(mfull == mb);
                        assert(q_lt(hn.t, hb.t));
                        assert forall|k: int|
                            0 <= k < i + 1 && (#[trigger] sphere_hit_model(
                                objs[k],
                                ray,
                                t_min,
                                t_max,
                            )) is Some implies q_le(
                            hn.t,
                            sphere_hit_model(objs[k], ray, t_min, t_max)->Some_0.t,
                        ) by {
                            if k < i {
                                lemma_q_lt_trans(
                                    hn.t,
                                    hb.t,
                                    sphere_hit_model(objs[k], ray, t_min, t_max)->Some_0.t,
                                );
                            }
                        }
                        lemma_q_lt_trans(hn.t, hb.t, t_max);
                        assert(sphere_hit_model(objs[i], ray, t_min, t_max) == mfull);
                        lemma_fold_nearest(objs, ray, t_min, t_max, i + 1, Some(hn));
                    },
                    None => {
                        // Nothing nearer here: if this sphere hits under the
                        // full window at all, it is no nearer than the best.
                        if mfull is Some {
                            if q_lt(mfull->Some_0.t, hb.t) {
                                assert(mb == mfull);
                                assert(false);
                            }
                        }
                        lemma_fold_nearest(objs, ray, t_min, t_max, i + 1, Some(hb));
                    },
                }
            },
        }
    }
}

/// The law of the linear scan: what the scene reports is the globally
/// nearest intersection over all members under the full window, and a
/// reported miss means every member misses.
pub proof fn lemma_list_hit_nearest(objs: Seq<Sphere>, ray: RayV, t_min: Q, t_max: Q)
    requires
        forall|k: int| 0 <= k < objs.len() ==> (#[trigger] objs[k]).wf(),
        crate::ray::rayv_wf(ray),
        q_wf(t_min),
        q_wf(t_max),
    ensures
        list_hit_model(objs, ray, t_min, t_max) matches Some(h) ==> (exists|k: int|
            0 <= k < objs.len() && #[trigger] sphere_hit_model(objs[k], ray, t_min, t_max)
                == list_hit_model(objs, ray, t_min, t_max)) && (forall|k: int|
            0 <= k < objs.len() && (#[trigger] sphere_hit_model(objs[k], ray, t_min, t_max))
                is Some ==> q_le(h.t, sphere_hit_model(objs[k], ray, t_min, t_max)->Some_0.t)),
        list_hit_model(objs, ray, t_min, t_max) is None ==> forall|k: int|
            0 <= k < objs.len() ==> (#[trigger] sphere_hit_model(objs[k], ray, t_min, t_max))
                is None,
{
    lemma_fold_nearest(objs, ray, t_min, t_max, 0, None);
}

/// Scene aggregate. Order of members never affects the result: the nearest
/// hit wins.
pub struct HittableList {
    pub objects: Vec<Sphere>,
}

impl HittableList {
    pub open spec fn wf(self) -> bool {
        forall|i: int| 0 <= i < self.objects@.len() ==> (#[trigger] self.objects@[i]).wf()
    }

    pub fn add(&mut self, object: Sphere)
        requires
            old(self).wf(),
            object.wf(),
        ensures
            final(self).objects@ == old(self).objects@.push(object),
            final(self).wf(),
    {
        self.objects.push(object);
        proof {
            assert forall|i: int|
                0 <= i < self.objects@.len() implies (#[trigger] self.objects@[i]).wf() by {
                if i < old(self).objects@.len() {
                    assert(self.objects@[i] == old(self).objects@[i]);
                }
            }
        }
    }
}

impl Default for HittableList {
    /// The empty scene: every ray misses.
    fn default() -> (r: HittableList)
        ensures
            r.objects@.len() == 0,
            r.wf(),
    {
        HittableList { objects: Vec::new() }
    }
}

impl Hittable for HittableList {
    open spec fn inv(&self) -> bool {
        self.wf()
    }

    fn hit(&self, ray: &Ray, t_min: &Rat, t_max: &Rat, rec: &mut HitRecord) -> (r: bool)
        ensures
            r == (list_hit_model(self.objects@, ray@, t_min@, t_max@) is Some),
            r ==> final(rec)@ == list_hit_model(self.objects@, ray@, t_min@, t_max@)->Some_0,
    {
        let ghost objs = self.objects@;
        let mut temp = HitRecord::default();
        let mut hit_anything = false;
        let mut closest = *t_max;
        let mut i: usize = 0;
        while i < self.objects.len()
            invariant
                0 <= i <= objs.len(),
                objs == self.objects@,
                self.wf(),
                ray.wf(),
                t_min.wf(),
                t_max.wf(),
                temp.wf(),
                closest.wf(),
                *rec == if hit_anything {
                    temp
                } else {
                    *old(rec)
                },
                old(rec).wf(),
                hit_anything ==> closest == temp.t && q_lt(t_min@, temp@.t) && q_lt(
                    temp@.t,
                    t_max@,
                ),
                !hit_anything ==> closest == *t_max,
                list_fold(objs, ray@, t_min@, t_max@, 0, None) == list_fold(
                    objs,
                    ray@,
                    t_min@,
                    t_max@,
                    i as int,
                    if hit_anything {
                        Some(temp@)
                    } else {
                        None
                    },
                ),
            decreases objs.len() - i,
        {
            let obj = &self.objects[i];
            let ghost prev_best: Option<HitV> = if hit_anything {
                Some(temp@)
            } else {
                None
            };
            if obj.hit(ray, t_min, &closest, &mut temp) {
                proof {
                    if hit_anything {
                        lemma_q_lt_trans(temp@.t, prev_best->Some_0.t, t_max@);
                    }
                }
                hit_anything = true;
                closest = temp.t;
                *rec = temp;
            }
            i = i + 1;
        }
        hit_anything
    }
}

} // verus!
