//! The scene aggregate: a flat collection of objects, each known by its
//! place in the collection and by its bounding box, if it has one.

use crate::aabb::AABB;
use crate::hull::{bounded_at, is_hull, lemma_hull_single, lemma_hull_union};
use crate::record::{limit, prefer, spec_limit, spec_prefer, HitRecord};
use vstd::prelude::*;

verus! {

/// The places `0 .. n` of a collection of `n` objects.
pub open spec fn all_items(n: int) -> Set<int> {
    Set::new(|i: int| 0 <= i < n)
}

/// The bounding box of a collection: none if the collection is empty or one
/// of its objects has none, else the boxes merged from the first to the last.
pub open spec fn aggregate_box(objects: Seq<Option<AABB>>) -> Option<AABB>
    decreases objects.len(),
{
    if objects.len() == 0 {
        None
    } else if objects.len() == 1 {
        objects[0]
    } else {
        match (objects.last(), aggregate_box(objects.drop_last())) {
            (Some(b), Some(rest)) => Some(b.merge(rest)),
            _ => None,
        }
    }
}

/// A collection has a bounding box exactly when it is not empty and each of
/// its objects has one, and the box is then the hull of the objects' boxes.
pub proof fn lemma_aggregate_box(objects: Seq<Option<AABB>>)
    ensures
        aggregate_box(objects) is Some <==> objects.len() > 0 && forall|i: int|
            0 <= i < objects.len() ==> bounded_at(objects, i),
        aggregate_box(objects) is Some ==> is_hull(
            aggregate_box(objects).unwrap(),
            objects,
            all_items(objects.len() as int),
        ),
    decreases objects.len(),
{
    let n = objects.len() as int;
    if n == 0 {
    } else if n == 1 {
        if objects[0] is Some {
            lemma_hull_single(objects, 0);
            assert(all_items(1) =~= set![0int]);
        } else {
            assert(!bounded_at(objects, 0));
        }
    } else {
        let front = objects.drop_last();
        lemma_aggregate_box(front);
        assert(forall|i: int| 0 <= i < n - 1 ==> front[i] == objects[i]);
        if aggregate_box(objects) is Some {
            let b = objects.last().unwrap();
            let rest = aggregate_box(front).unwrap();
            assert forall|i: int| 0 <= i < n implies bounded_at(objects, i) by {
                if i < n - 1 {
                    assert(bounded_at(front, i));
                }
            }
            lemma_hull_single(objects, n - 1);
            lemma_hull_widen(rest, front, objects, all_items(n - 1));
            lemma_hull_union(b, rest, objects, set![n - 1], all_items(n - 1));
            assert(set![n - 1].union(all_items(n - 1)) =~= all_items(n));
        } else {
            if objects.last() is Some {
                assert(aggregate_box(front) is None);
                let i = choose|i: int| 0 <= i < n - 1 && !bounded_at(front, i);
                assert(!bounded_at(objects, i));
            } else {
                assert(!bounded_at(objects, n - 1));
            }
        }
    }
}

/// A hull stays a hull when the collection grows behind the picked places.
pub proof fn lemma_hull_widen(
    b: AABB,
    objects: Seq<Option<AABB>>,
    longer: Seq<Option<AABB>>,
    items: Set<int>,
)
    requires
        is_hull(b, objects, items),
        objects.len() <= longer.len(),
        forall|i: int| 0 <= i < objects.len() ==> objects[i] == longer[i],
    ensures
        is_hull(b, longer, items),
{
    assert forall|i: int| #[trigger] items.contains(i) implies bounded_at(longer, i)
        && b.contains(longer[i].unwrap()) by {
        assert(bounded_at(objects, i));
    }
    let lx = choose|i: int| #[trigger] items.contains(i) && objects[i].unwrap().spec_minimum().x == b.spec_minimum().x;
    assert(bounded_at(objects, lx));
    let ly = choose|i: int| #[trigger] items.contains(i) && objects[i].unwrap().spec_minimum().y == b.spec_minimum().y;
    assert(bounded_at(objects, ly));
    let lz = choose|i: int| #[trigger] items.contains(i) && objects[i].unwrap().spec_minimum().z == b.spec_minimum().z;
    assert(bounded_at(objects, lz));
    let hx = choose|i: int| #[trigger] items.contains(i) && objects[i].unwrap().spec_maximum().x == b.spec_maximum().x;
    assert(bounded_at(objects, hx));
    let hy = choose|i: int| #[trigger] items.contains(i) && objects[i].unwrap().spec_maximum().y == b.spec_maximum().y;
    assert(bounded_at(objects, hy));
    let hz = choose|i: int| #[trigger] items.contains(i) && objects[i].unwrap().spec_maximum().z == b.spec_maximum().z;
    assert(bounded_at(objects, hz));
}

/// A flat collection of objects. The library knows an object by its place in
/// the collection and by its bounding box over the time of the exposure; an
/// object that extends without bound has none.
pub struct HittableList {
    objects: Vec<Option<AABB>>,
}

impl View for HittableList {
    type V = Seq<Option<AABB>>;

    closed spec fn view(&self) -> Seq<Option<AABB>> {
        self.objects@
    }
}

impl HittableList {
    pub fn new() -> (r: Self)
        ensures
            r@ == Seq::<Option<AABB>>::empty(),
    {
        Self { objects: Vec::new() }
    }

    /// Appends an object, given by its bounding box.
    pub fn add(&mut self, hittable: Option<AABB>)
        ensures
            final(self)@ == old(self)@.push(hittable),
    {
        self.objects.push(hittable)
    }

    /// The number of objects.
    pub fn len(&self) -> (r: usize)
        ensures
            r == self@.len(),
    {
        self.objects.len()
    }

    /// The objects' boxes, in the order in which they were added.
    pub fn as_raw(self) -> (r: Vec<Option<AABB>>)
        ensures
            r@ == self@,
    {
        self.objects
    }

    /// The bounding box of the whole collection: the hull of the objects'
    /// boxes, and none if the collection is empty or an object has no box.
    pub fn bounding_box(&self) -> (r: Option<AABB>)
        ensures
            r == aggregate_box(self@),
            r is Some <==> self@.len() > 0 && forall|i: int|
                0 <= i < self@.len() ==> bounded_at(self@, i),
            r is Some ==> is_hull(r.unwrap(), self@, all_items(self@.len() as int)),
    {
        proof {
            lemma_aggregate_box(self@);
        }
        if self.objects.len() == 0 {
            return None;
        }
        let mut outer_box: Option<AABB> = None;
        let mut i: usize = 0;
        while i < self.objects.len()
            invariant
                i <= self.objects.len(),
                outer_box == aggregate_box(self@.take(i as int)),
                i > 0 ==> outer_box is Some,
                self@ == self.objects@,
            decreases self.objects.len() - i,
        {
            proof {
                let next = self@.take(i + 1);
                assert(next.drop_last() =~= self@.take(i as int));
                assert(next.last() == self@[i as int]);
            }
            match self.objects[i] {
                Some(aabb) => match outer_box {
                    Some(inner_aabb) => {
                        outer_box = Some(AABB::surrounding_box(&aabb, &inner_aabb));
                    },
                    None => {
                        outer_box = Some(aabb);
                    },
                },
                None => {
                    proof {
                        lemma_missing_box_spreads(self@, i + 1);
                        lemma_aggregate_box(self@);
                    }
                    return None;
                },
            }
            i = i + 1;
        }
        proof {
            assert(self@.take(i as int) =~= self@);
        }
        outer_box
    }
}

/// A collection whose first `k` objects have no common box has none itself.
pub proof fn lemma_missing_box_spreads(objects: Seq<Option<AABB>>, k: int)
    requires
        0 < k <= objects.len(),
        aggregate_box(objects.take(k)) is None,
    ensures
        aggregate_box(objects) is None,
{
    lemma_aggregate_box(objects.take(k));
    lemma_aggregate_box(objects);
    let front = objects.take(k);
    let i = choose|i: int| 0 <= i < front.len() && !bounded_at(front, i);
    assert(!bounded_at(objects, i));
}

/// `found` is what a scan of the first `n` objects may find between `t_min`
/// and `t_max`, where `probe` intersects the ray with one object.
///
/// The objects are probed in order, each one only as far as the nearest hit
/// found before it, and a hit replaces what was found before it.
pub open spec fn scanned<F: Fn(usize, i64, i64) -> Option<HitRecord>>(
    probe: F,
    n: nat,
    t_min: i64,
    t_max: i64,
    found: Option<HitRecord>,
) -> bool
    decreases n,
{
    if n == 0 {
        found is None
    } else {
        exists|earlier: Option<HitRecord>, later: Option<HitRecord>|
            {
                &&& scanned(probe, (n - 1) as nat, t_min, t_max, earlier)
                &&& #[trigger] probe.ensures(
                    ((n - 1) as usize, t_min, spec_limit(earlier, t_max)),
                    later,
                )
                &&& found == spec_prefer(earlier, later)
            }
    }
}

/// Scans the objects `0 .. n` for the nearest hit of a ray between `t_min`
/// and `t_max`, where `probe(i, t_min, limit)` intersects the ray with
/// object `i` up to `limit`.
pub fn scan<F: Fn(usize, i64, i64) -> Option<HitRecord>>(
    n: usize,
    probe: &F,
    t_min: i64,
    t_max: i64,
) -> (r: Option<HitRecord>)
    requires
        forall|i: usize, a: i64, b: i64| i < n ==> #[trigger] probe.requires((i, a, b)),
    ensures
        scanned(*probe, n as nat, t_min, t_max, r),
{
    let mut hit_record: Option<HitRecord> = None;
    let mut i: usize = 0;
    while i < n
        invariant
            i <= n,
            forall|i: usize, a: i64, b: i64| i < n ==> #[trigger] probe.requires((i, a, b)),
            scanned(*probe, i as nat, t_min, t_max, hit_record),
        decreases n - i,
    {
        let closest_so_far: i64 = limit(hit_record, t_max);
        let record: Option<HitRecord> = probe(i, t_min, closest_so_far);
        let ghost earlier = hit_record;
        hit_record = prefer(hit_record, record);
        proof {
            assert(probe.ensures(
                (((i + 1) - 1) as usize, t_min, spec_limit(earlier, t_max)),
                record,
            ));
            assert(scanned(*probe, ((i + 1) - 1) as nat, t_min, t_max, earlier));
        }
        i = i + 1;
    }
    hit_record
}

impl HittableList {
    /// The nearest hit of a ray with the objects of the collection between
    /// `t_min` and `t_max`, where `probe(i, t_min, limit)` intersects the ray
    /// with object `i` up to `limit`.
    pub fn hit<F: Fn(usize, i64, i64) -> Option<HitRecord>>(
        &self,
        probe: &F,
        t_min: i64,
        t_max: i64,
    ) -> (r: Option<HitRecord>)
        requires
            forall|i: usize, a: i64, b: i64| i < self@.len() ==> #[trigger] probe.requires((i, a, b)),
        ensures
            scanned(*probe, self@.len(), t_min, t_max, r),
    {
        scan(self.objects.len(), probe, t_min, t_max)
    }
}

} // verus!
