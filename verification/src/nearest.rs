//! Why the hierarchy finds what a scan of all objects finds.
//!
//! The two searches probe the objects in different orders and to different
//! limits, and the hierarchy skips whole subtrees. They agree on how far the
//! nearest hit is as soon as two things hold of the ray: each object has a
//! first crossing that the probe reports whenever it lies within the limit,
//! and a box is never missed while an object inside it is crossed in range.

use crate::aabb::AABB;
use crate::bvh::{
    lemma_child_hull, lemma_children_smaller, lemma_searched_inner, searched, walked, BVHNode, Child,
};
use crate::hittable::{all_items, scanned};
use crate::hull::bounded_at;
use crate::record::{spec_limit, spec_prefer, time, HitRecord};
use vstd::prelude::*;

verus! {

/// What a probe that reaches up to `limit` reports of an object whose first
/// crossing is `crossing`.
pub open spec fn clip(crossing: Option<HitRecord>, limit: i64) -> Option<HitRecord> {
    match crossing {
        Some(h) => if h.t <= limit {
            crossing
        } else {
            None
        },
        None => None,
    }
}

/// Whether object `i` is crossed at or before `limit`.
pub open spec fn crossed(first: Seq<Option<HitRecord>>, i: int, limit: i64) -> bool {
    0 <= i < first.len() && first[i] is Some && first[i].unwrap().t <= limit
}

/// `probe` reports of each object its first crossing, as listed in `first`,
/// whenever that crossing lies within the limit, and nothing else.
pub open spec fn faithful<F: Fn(usize, i64, i64) -> Option<HitRecord>>(
    probe: F,
    first: Seq<Option<HitRecord>>,
    t_min: i64,
) -> bool {
    forall|i: usize, limit: i64, found: Option<HitRecord>|
        i < first.len() && #[trigger] probe.ensures((i, t_min, limit), found) ==> found == clip(
            first[i as int],
            limit,
        )
}

/// `inside` never misses a box that holds the box of an object which the
/// ray crosses within the limit.
pub open spec fn conservative<G: Fn(AABB, i64, i64) -> bool>(
    inside: G,
    objects: Seq<Option<AABB>>,
    first: Seq<Option<HitRecord>>,
    t_min: i64,
) -> bool {
    forall|outer: AABB, limit: i64, i: int|
        #![trigger inside.ensures((outer, t_min, limit), false), crossed(first, i, limit)]
        crossed(first, i, limit) && bounded_at(objects, i) && outer.contains(objects[i].unwrap())
            ==> !inside.ensures((outer, t_min, limit), false)
}

/// `found` is the parameter of the nearest crossing, up to `limit`, of the
/// objects picked by `items`: none if none of them is crossed that early.
pub open spec fn is_nearest(
    found: Option<i64>,
    first: Seq<Option<HitRecord>>,
    items: Set<int>,
    limit: i64,
) -> bool {
    match found {
        Some(t) => {
            &&& t <= limit
            &&& exists|i: int| #[trigger] items.contains(i) && crossed(first, i, t) && first[i].unwrap().t == t
            &&& forall|i: int| #[trigger] items.contains(i) && crossed(first, i, limit) ==> t <= first[i].unwrap().t
        },
        None => forall|i: int| #[trigger] items.contains(i) ==> !crossed(first, i, limit),
    }
}

/// There is at most one nearest crossing.
pub proof fn lemma_nearest_unique(
    a: Option<i64>,
    b: Option<i64>,
    first: Seq<Option<HitRecord>>,
    items: Set<int>,
    limit: i64,
)
    requires
        is_nearest(a, first, items, limit),
        is_nearest(b, first, items, limit),
    ensures
        a == b,
{
    if a is Some {
        let t = a.unwrap();
        let i = choose|i: int| #[trigger] items.contains(i) && crossed(first, i, t) && first[i].unwrap().t == t;
        assert(crossed(first, i, limit));
    }
    if b is Some {
        let t = b.unwrap();
        let i = choose|i: int| #[trigger] items.contains(i) && crossed(first, i, t) && first[i].unwrap().t == t;
        assert(crossed(first, i, limit));
    }
}

/// What a faithful probe reports of one object is its nearest crossing.
pub proof fn lemma_nearest_single(first: Seq<Option<HitRecord>>, i: int, limit: i64)
    requires
        0 <= i < first.len(),
    ensures
        is_nearest(time(clip(first[i], limit)), first, set![i], limit),
{
    assert(set![i].contains(i));
}

/// Searching one set of objects and then another, the second only as far as
/// the hit in the first, finds the nearest crossing of both sets.
pub proof fn lemma_nearest_union(
    earlier: Option<HitRecord>,
    later: Option<HitRecord>,
    first: Seq<Option<HitRecord>>,
    left: Set<int>,
    right: Set<int>,
    limit: i64,
)
    requires
        is_nearest(time(earlier), first, left, limit),
        is_nearest(time(later), first, right, spec_limit(earlier, limit)),
    ensures
        is_nearest(time(spec_prefer(earlier, later)), first, left.union(right), limit),
{
    let both = left.union(right);
    let inner = spec_limit(earlier, limit);
    let found = time(spec_prefer(earlier, later));
    assert(inner <= limit);
    if later is Some {
        let t = later.unwrap().t;
        let i = choose|i: int| #[trigger] right.contains(i) && crossed(first, i, t) && first[i].unwrap().t == t;
        assert(both.contains(i));
        assert forall|k: int| #[trigger] both.contains(k) && crossed(first, k, limit) implies t
            <= first[k].unwrap().t by {
            if left.contains(k) {
                if earlier is Some {
                } else {
                    assert(!crossed(first, k, limit));
                }
            } else {
                assert(right.contains(k));
                if first[k].unwrap().t <= inner {
                    assert(crossed(first, k, inner));
                }
            }
        }
    } else if earlier is Some {
        let t = earlier.unwrap().t;
        let i = choose|i: int| #[trigger] left.contains(i) && crossed(first, i, t) && first[i].unwrap().t == t;
        assert(both.contains(i));
        assert forall|k: int| #[trigger] both.contains(k) && crossed(first, k, limit) implies t
            <= first[k].unwrap().t by {
            if left.contains(k) {
            } else {
                assert(right.contains(k));
                if first[k].unwrap().t <= inner {
                    assert(crossed(first, k, inner));
                }
            }
        }
    } else {
        assert forall|k: int| #[trigger] both.contains(k) implies !crossed(first, k, limit) by {
            if left.contains(k) {
            } else {
                assert(right.contains(k));
            }
        }
    }
}

/// A scan with a faithful probe finds the nearest crossing of the objects
/// that it has probed.
pub proof fn lemma_scan_nearest<F: Fn(usize, i64, i64) -> Option<HitRecord>>(
    probe: F,
    first: Seq<Option<HitRecord>>,
    n: nat,
    t_min: i64,
    t_max: i64,
    found: Option<HitRecord>,
)
    requires
        n <= first.len(),
        first.len() <= usize::MAX,
        faithful(probe, first, t_min),
        scanned(probe, n, t_min, t_max, found),
    ensures
        is_nearest(time(found), first, all_items(n as int), t_max),
    decreases n,
{
    if n == 0 {
    } else {
        let (earlier, later) = choose|earlier: Option<HitRecord>, later: Option<HitRecord>|
            {
                &&& scanned(probe, (n - 1) as nat, t_min, t_max, earlier)
                &&& #[trigger] probe.ensures(
                    ((n - 1) as usize, t_min, spec_limit(earlier, t_max)),
                    later,
                )
                &&& found == spec_prefer(earlier, later)
            };
        lemma_scan_nearest(probe, first, (n - 1) as nat, t_min, t_max, earlier);
        let inner = spec_limit(earlier, t_max);
        assert(later == clip(first[n - 1], inner));
        lemma_nearest_single(first, n - 1, inner);
        lemma_nearest_union(earlier, later, first, all_items(n - 1), set![n - 1], t_max);
        assert(all_items(n - 1).union(set![n - 1]) =~= all_items(n as int));
    }
}

/// A search of the hierarchy with a faithful probe and a conservative box
/// test finds the nearest crossing of the objects below.
pub proof fn lemma_search_nearest<
    F: Fn(usize, i64, i64) -> Option<HitRecord>,
    G: Fn(AABB, i64, i64) -> bool,
>(
    child: Child,
    probe: F,
    inside: G,
    objects: Seq<Option<AABB>>,
    first: Seq<Option<HitRecord>>,
    t_min: i64,
    t_max: i64,
    found: Option<HitRecord>,
)
    requires
        child.wf(objects),
        objects.len() == first.len(),
        faithful(probe, first, t_min),
        conservative(inside, objects, first, t_min),
        searched(child, probe, inside, t_min, t_max, found),
    ensures
        is_nearest(time(found), first, child.items(), t_max),
    decreases child,
{
    match child {
        Child::Leaf(i) => {
            assert(bounded_at(objects, i as int));
            assert(found == clip(first[i as int], t_max));
            lemma_nearest_single(first, i as int, t_max);
        },
        Child::Inner(node) => {
            let outer = node.spec_bounding_box();
            if inside.ensures((outer, t_min, t_max), false) && found is None {
                lemma_child_hull(child, objects);
                assert forall|i: int| #[trigger] child.items().contains(i) implies !crossed(
                    first,
                    i,
                    t_max,
                ) by {
                    if crossed(first, i, t_max) {
                        assert(bounded_at(objects, i) && outer.contains(objects[i].unwrap()));
                        assert(!inside.ensures((outer, t_min, t_max), false));
                    }
                }
            } else {
                let (l, r) = choose|l: Option<HitRecord>, r: Option<HitRecord>|
                    {
                        &&& searched(node.spec_left(), probe, inside, t_min, t_max, l)
                        &&& searched(
                            node.spec_right(),
                            probe,
                            inside,
                            t_min,
                            spec_limit(l, t_max),
                            r,
                        )
                        &&& found == #[trigger] spec_prefer(l, r)
                    };
                lemma_children_smaller(*node);
                lemma_search_nearest(node.spec_left(), probe, inside, objects, first, t_min, t_max, l);
                lemma_search_nearest(
                    node.spec_right(),
                    probe,
                    inside,
                    objects,
                    first,
                    t_min,
                    spec_limit(l, t_max),
                    r,
                );
                lemma_nearest_union(
                    l,
                    r,
                    first,
                    node.spec_left().items(),
                    node.spec_right().items(),
                    t_max,
                );
            }
        },
    }
}

/// The hierarchy changes the cost of a search, not its result: for one ray,
/// a search of a hierarchy built over a collection finds a hit exactly when
/// a scan of the collection finds one, and both hits lie equally far along
/// the ray.
///
/// This holds of every ray of which `probe` reports, object by object, a
/// first crossing whenever it lies within the limit, and against which
/// `inside` is conservative.
pub proof fn lemma_hierarchy_agrees_with_scan<
    F: Fn(usize, i64, i64) -> Option<HitRecord>,
    G: Fn(AABB, i64, i64) -> bool,
>(
    node: BVHNode,
    probe: F,
    inside: G,
    objects: Seq<Option<AABB>>,
    first: Seq<Option<HitRecord>>,
    t_min: i64,
    t_max: i64,
    by_hierarchy: Option<HitRecord>,
    by_scan: Option<HitRecord>,
)
    requires
        node.wf(objects),
        node.items() == all_items(objects.len() as int),
        objects.len() == first.len(),
        first.len() <= usize::MAX,
        faithful(probe, first, t_min),
        conservative(inside, objects, first, t_min),
        walked(node, probe, inside, t_min, t_max, by_hierarchy),
        scanned(probe, objects.len(), t_min, t_max, by_scan),
    ensures
        time(by_hierarchy) == time(by_scan),
{
    let root = Child::Inner(Box::new(node));
    lemma_searched_inner(node, probe, inside, t_min, t_max, by_hierarchy);
    lemma_search_nearest(root, probe, inside, objects, first, t_min, t_max, by_hierarchy);
    lemma_scan_nearest(probe, first, objects.len(), t_min, t_max, by_scan);
    lemma_nearest_unique(
        time(by_hierarchy),
        time(by_scan),
        first,
        all_items(objects.len() as int),
        t_max,
    );
}

/// `found`, if it is a hit, is the first crossing of one of the objects
/// picked by `items`.
pub open spec fn names_an_object(
    found: Option<HitRecord>,
    first: Seq<Option<HitRecord>>,
    items: Set<int>,
) -> bool {
    found is Some ==> exists|i: int|
        #[trigger] items.contains(i) && 0 <= i < first.len() && first[i] == found
}

/// At most one object is crossed at the parameter `t`.
pub open spec fn alone_at(first: Seq<Option<HitRecord>>, t: i64) -> bool {
    forall|i: int, j: int|
        0 <= i < first.len() && 0 <= j < first.len() && (#[trigger] first[i]) is Some && (
        #[trigger] first[j]) is Some && first[i].unwrap().t == t && first[j].unwrap().t == t
            ==> i == j
}

/// What a scan with a faithful probe finds is the first crossing of one of
/// the objects that it has probed.
pub proof fn lemma_scan_names_an_object<F: Fn(usize, i64, i64) -> Option<HitRecord>>(
    probe: F,
    first: Seq<Option<HitRecord>>,
    n: nat,
    t_min: i64,
    t_max: i64,
    found: Option<HitRecord>,
)
    requires
        n <= first.len(),
        first.len() <= usize::MAX,
        faithful(probe, first, t_min),
        scanned(probe, n, t_min, t_max, found),
    ensures
        names_an_object(found, first, all_items(n as int)),
    decreases n,
{
    if n > 0 {
        let (earlier, later) = choose|earlier: Option<HitRecord>, later: Option<HitRecord>|
            {
                &&& scanned(probe, (n - 1) as nat, t_min, t_max, earlier)
                &&& #[trigger] probe.ensures(
                    ((n - 1) as usize, t_min, spec_limit(earlier, t_max)),
                    later,
                )
                &&& found == spec_prefer(earlier, later)
            };
        lemma_scan_names_an_object(probe, first, (n - 1) as nat, t_min, t_max, earlier);
        assert(later == clip(first[n - 1], spec_limit(earlier, t_max)));
        if later is Some {
            assert(all_items(n as int).contains(n - 1));
            assert(first[n - 1] == found);
        } else if earlier is Some {
            let i = choose|i: int|
                #[trigger] all_items(n - 1).contains(i) && 0 <= i < first.len() && first[i]
                    == earlier;
            assert(all_items(n as int).contains(i));
        }
    }
}

/// What a search of the hierarchy with a faithful probe finds is the first
/// crossing of one of the objects below.
pub proof fn lemma_search_names_an_object<
    F: Fn(usize, i64, i64) -> Option<HitRecord>,
    G: Fn(AABB, i64, i64) -> bool,
>(
    child: Child,
    probe: F,
    inside: G,
    objects: Seq<Option<AABB>>,
    first: Seq<Option<HitRecord>>,
    t_min: i64,
    t_max: i64,
    found: Option<HitRecord>,
)
    requires
        child.wf(objects),
        objects.len() == first.len(),
        faithful(probe, first, t_min),
        searched(child, probe, inside, t_min, t_max, found),
    ensures
        names_an_object(found, first, child.items()),
    decreases child,
{
    match child {
        Child::Leaf(i) => {
            assert(bounded_at(objects, i as int));
            assert(found == clip(first[i as int], t_max));
            if found is Some {
                assert(child.items().contains(i as int));
                assert(first[i as int] == found);
            }
        },
        Child::Inner(node) => {
            if found is Some {
                let (l, r) = choose|l: Option<HitRecord>, r: Option<HitRecord>|
                    {
                        &&& searched(node.spec_left(), probe, inside, t_min, t_max, l)
                        &&& searched(
                            node.spec_right(),
                            probe,
                            inside,
                            t_min,
                            spec_limit(l, t_max),
                            r,
                        )
                        &&& found == #[trigger] spec_prefer(l, r)
                    };
                lemma_children_smaller(*node);
                lemma_search_names_an_object(
                    node.spec_left(),
                    probe,
                    inside,
                    objects,
                    first,
                    t_min,
                    t_max,
                    l,
                );
                lemma_search_names_an_object(
                    node.spec_right(),
                    probe,
                    inside,
                    objects,
                    first,
                    t_min,
                    spec_limit(l, t_max),
                    r,
                );
                if r is Some {
                    let i = choose|i: int|
                        #[trigger] node.spec_right().items().contains(i) && 0 <= i < first.len()
                            && first[i] == r;
                    assert(child.items().contains(i));
                } else {
                    let i = choose|i: int|
                        #[trigger] node.spec_left().items().contains(i) && 0 <= i < first.len()
                            && first[i] == l;
                    assert(child.items().contains(i));
                }
            }
        },
    }
}

/// Where the nearest crossing is that of one object alone, the hierarchy and
/// the scan find the same hit, in every part of its record. Where two
/// objects are crossed at the same parameter, the two searches may each name
/// another of them, and agree on the parameter only.
pub proof fn lemma_hierarchy_agrees_with_scan_on_the_record<
    F: Fn(usize, i64, i64) -> Option<HitRecord>,
    G: Fn(AABB, i64, i64) -> bool,
>(
    node: BVHNode,
    probe: F,
    inside: G,
    objects: Seq<Option<AABB>>,
    first: Seq<Option<HitRecord>>,
    t_min: i64,
    t_max: i64,
    by_hierarchy: Option<HitRecord>,
    by_scan: Option<HitRecord>,
)
    requires
        node.wf(objects),
        node.items() == all_items(objects.len() as int),
        objects.len() == first.len(),
        first.len() <= usize::MAX,
        faithful(probe, first, t_min),
        conservative(inside, objects, first, t_min),
        walked(node, probe, inside, t_min, t_max, by_hierarchy),
        scanned(probe, objects.len(), t_min, t_max, by_scan),
        by_scan matches Some(hit) ==> alone_at(first, hit.t),
    ensures
        by_hierarchy == by_scan,
{
    lemma_hierarchy_agrees_with_scan(
        node,
        probe,
        inside,
        objects,
        first,
        t_min,
        t_max,
        by_hierarchy,
        by_scan,
    );
    if by_scan is Some {
        let root = Child::Inner(Box::new(node));
        lemma_searched_inner(node, probe, inside, t_min, t_max, by_hierarchy);
        lemma_search_names_an_object(
            root,
            probe,
            inside,
            objects,
            first,
            t_min,
            t_max,
            by_hierarchy,
        );
        lemma_scan_names_an_object(probe, first, objects.len(), t_min, t_max, by_scan);
        let i = choose|i: int|
            #[trigger] root.items().contains(i) && 0 <= i < first.len() && first[i]
                == by_hierarchy;
        let j = choose|j: int|
            #[trigger] all_items(objects.len() as int).contains(j) && 0 <= j < first.len()
                && first[j] == by_scan;
        assert(first[i] is Some && first[j] is Some);
        assert(i == j);
    }
}

} // verus!
