//! A scene of spheres, and the nearest hit of a ray among them.

use vstd::prelude::*;
use crate::ray::HitRecord;
use crate::scalar::Scalar;
use crate::sphere::{inside, Quadratic, Sphere};

verus! {

/// The surfaces of a scene, in the order they were added.
pub struct World {
    pub items: Vec<Sphere>,
}

/// The upper end of the interval that is still open after a hit was found,
/// or before one was: the hit's parameter, or else `t_max`.
pub open spec fn closest_so_far(found: Option<HitRecord>, t_max: Scalar) -> Scalar {
    match found {
        Some(rec) => rec.t,
        None => t_max,
    }
}

/// The hit that a scan of the first `n` surfaces ends with. Each surface
/// is asked for a hit below the closest one so far, and a hit it reports
/// replaces the one held.
pub open spec fn nearest_hit(
    items: Seq<Sphere>,
    quadratics: Seq<Quadratic>,
    t_min: Scalar,
    t_max: Scalar,
    n: nat,
) -> Option<HitRecord>
    decreases n,
{
    if n == 0 {
        None
    } else {
        let found = nearest_hit(items, quadratics, t_min, t_max, (n - 1) as nat);
        match items[n - 1].hit_of(quadratics[n - 1], t_min, closest_so_far(found, t_max)) {
            Some(rec) => Some(rec),
            None => found,
        }
    }
}

/// The hit of surface `i` alone, over the whole interval.
pub open spec fn candidate(
    items: Seq<Sphere>,
    quadratics: Seq<Quadratic>,
    t_min: Scalar,
    t_max: Scalar,
    i: int,
) -> Option<HitRecord> {
    items[i].hit_of(quadratics[i], t_min, t_max)
}

/// Whether the hit `rec` of surface `i` wins over surface `j`: what `j`
/// has is no closer, and is farther if `j` comes before `i`.
pub open spec fn wins_over(
    items: Seq<Sphere>,
    quadratics: Seq<Quadratic>,
    t_min: Scalar,
    t_max: Scalar,
    i: int,
    rec: HitRecord,
    j: int,
) -> bool {
    match candidate(items, quadratics, t_min, t_max, j) {
        Some(other) => rec.t.at_most(other.t) && (j < i ==> rec.t.less(other.t)),
        None => true,
    }
}

/// Whether `rec` is the hit of surface `i` and the closest among the first
/// `n` surfaces: no surface has a hit with a smaller parameter, and none
/// before `i` has one with the same.
pub open spec fn is_closest(
    items: Seq<Sphere>,
    quadratics: Seq<Quadratic>,
    t_min: Scalar,
    t_max: Scalar,
    n: nat,
    i: int,
    rec: HitRecord,
) -> bool {
    &&& 0 <= i < n
    &&& candidate(items, quadratics, t_min, t_max, i) == Some(rec)
    &&& forall|j: int|
        0 <= j < n ==> #[trigger] wins_over(items, quadratics, t_min, t_max, i, rec, j)
}

impl Default for World {
    /// The empty scene.
    fn default() -> (world: World)
        ensures
            world.items@ == Seq::<Sphere>::empty(),
    {
        World { items: Vec::new() }
    }
}

impl World {
    pub fn new() -> (world: World)
        ensures
            world.items@ == Seq::<Sphere>::empty(),
    {
        World { items: Vec::new() }
    }

    /// Adds a surface behind those already in the scene.
    pub fn add(&mut self, item: Sphere)
        ensures
            final(self).items@ == old(self).items@.push(item),
    {
        self.items.push(item);
    }

    /// Finds the nearest hit of a ray within `(t_min, t_max)`.
    /// `quadratics` holds, for each surface in order, the solved equation
    /// of the ray with it.
    pub fn hit(
        &self,
        quadratics: &Vec<Quadratic>,
        t_min: Scalar,
        t_max: Scalar,
    ) -> (rec: Option<HitRecord>)
        requires
            quadratics.len() == self.items.len(),
        ensures
            rec == nearest_hit(self.items@, quadratics@, t_min, t_max, self.items@.len()),
            match rec {
                Some(rec) => inside(rec.t, t_min, t_max),
                None => true,
            },
            (forall|j: int| 0 <= j < quadratics.len() ==> (#[trigger] quadratics[j]).ascending())
                ==> match rec {
                Some(rec) => exists|i: int|
                    is_closest(self.items@, quadratics@, t_min, t_max, self.items@.len(), i, rec),
                None => forall|j: int|
                    0 <= j < self.items.len() ==> (#[trigger] candidate(
                        self.items@,
                        quadratics@,
                        t_min,
                        t_max,
                        j,
                    )).is_none(),
            },
    {
        let mut tmp_rec: Option<HitRecord> = None;
        let mut closest = t_max;
        let mut i: usize = 0;
        while i < self.items.len()
            invariant
                i <= self.items.len(),
                quadratics.len() == self.items.len(),
                tmp_rec == nearest_hit(self.items@, quadratics@, t_min, t_max, i as nat),
                closest == closest_so_far(tmp_rec, t_max),
            decreases self.items.len() - i,
        {
            if let Some(rec) = self.items[i].hit(&quadratics[i], t_min, closest) {
                closest = rec.t;
                tmp_rec = Some(rec);
            }
            i = i + 1;
        }
        proof {
            lemma_nearest_hit_is_inside(
                self.items@,
                quadratics@,
                t_min,
                t_max,
                self.items@.len(),
            );
            if forall|j: int| 0 <= j < quadratics.len() ==> (#[trigger] quadratics[j]).ascending() {
                lemma_nearest_hit_is_closest(
                    self.items@,
                    quadratics@,
                    t_min,
                    t_max,
                    self.items@.len(),
                );
            }
        }
        tmp_rec
    }
}

/// The hit that a scan returns lies strictly inside `(t_min, t_max)`.
pub proof fn lemma_nearest_hit_is_inside(
    items: Seq<Sphere>,
    quadratics: Seq<Quadratic>,
    t_min: Scalar,
    t_max: Scalar,
    n: nat,
)
    ensures
        match nearest_hit(items, quadratics, t_min, t_max, n) {
            Some(rec) => inside(rec.t, t_min, t_max),
            None => true,
        },
    decreases n,
{
    if n > 0 {
        lemma_nearest_hit_is_inside(items, quadratics, t_min, t_max, (n - 1) as nat);
    }
}

/// The scan of a scene returns the closest hit. Where some surface has a
/// hit inside `(t_min, t_max)`, the scan returns the hit with the smallest
/// parameter, and of several with that parameter the one of the surface
/// added first; where none has, it returns none. This holds whenever the
/// roots of each quadratic are in ascending order.
pub proof fn lemma_nearest_hit_is_closest(
    items: Seq<Sphere>,
    quadratics: Seq<Quadratic>,
    t_min: Scalar,
    t_max: Scalar,
    n: nat,
)
    requires
        n <= items.len(),
        n <= quadratics.len(),
        forall|j: int| 0 <= j < n ==> (#[trigger] quadratics[j]).ascending(),
    ensures
        match nearest_hit(items, quadratics, t_min, t_max, n) {
            Some(rec) => exists|i: int| is_closest(items, quadratics, t_min, t_max, n, i, rec),
            None => forall|j: int|
                0 <= j < n ==> (#[trigger] candidate(items, quadratics, t_min, t_max, j)).is_none(),
        },
    decreases n,
{
    if n > 0 {
        let m = (n - 1) as nat;
        lemma_nearest_hit_is_closest(items, quadratics, t_min, t_max, m);
        let found = nearest_hit(items, quadratics, t_min, t_max, m);
        let last = items[m as int].hit_of(
            quadratics[m as int],
            t_min,
            closest_so_far(found, t_max),
        );
        assert(quadratics[m as int].ascending());
        match (found, last) {
            (Some(held), Some(rec)) => {
                // The last surface has a hit below the one held: it is
                // that surface's own hit, and closer than all before.
                let i = choose|i: int| is_closest(items, quadratics, t_min, t_max, m, i, held);
                assert forall|j: int| 0 <= j < n implies #[trigger] wins_over(
                    items,
                    quadratics,
                    t_min,
                    t_max,
                    m as int,
                    rec,
                    j,
                ) by {
                    if j < m {
                        assert(wins_over(items, quadratics, t_min, t_max, i, held, j));
                    }
                }
                assert(is_closest(items, quadratics, t_min, t_max, n, m as int, rec));
            },
            (Some(held), None) => {
                // The last surface has nothing below the hit held, which
                // lies inside the interval: nothing closer at all.
                let i = choose|i: int| is_closest(items, quadratics, t_min, t_max, m, i, held);
                assert(inside(held.t, t_min, t_max));
                assert forall|j: int| 0 <= j < n implies #[trigger] wins_over(
                    items,
                    quadratics,
                    t_min,
                    t_max,
                    i,
                    held,
                    j,
                ) by {
                    if j < m {
                        assert(wins_over(items, quadratics, t_min, t_max, i, held, j));
                    }
                }
                assert(is_closest(items, quadratics, t_min, t_max, n, i, held));
            },
            (None, Some(rec)) => {
                assert forall|j: int| 0 <= j < n implies #[trigger] wins_over(
                    items,
                    quadratics,
                    t_min,
                    t_max,
                    m as int,
                    rec,
                    j,
                ) by {
                    if j < m {
                        assert(candidate(items, quadratics, t_min, t_max, j).is_none());
                    }
                }
                assert(is_closest(items, quadratics, t_min, t_max, n, m as int, rec));
            },
            (None, None) => {
                assert forall|j: int| 0 <= j < n implies (#[trigger] candidate(
                    items,
                    quadratics,
                    t_min,
                    t_max,
                    j,
                )).is_none() by {
                    if j < m {
                        assert(candidate(items, quadratics, t_min, t_max, j).is_none());
                    }
                }
            },
        }
    }
}

} // verus!
