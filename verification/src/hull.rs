//! The hull of a set of boxes: the least box that holds them all.

use crate::aabb::AABB;
use vstd::prelude::*;

verus! {

/// Whether object `i` of `objects` exists and has a bounding box.
pub open spec fn bounded_at(objects: Seq<Option<AABB>>, i: int) -> bool {
    0 <= i < objects.len() && objects[i] is Some
}

/// `b` is the hull of the objects picked by `items`: every picked object has
/// a box, `b` holds each of these boxes, and each of the six faces of `b` is a
/// face of one of them.
pub open spec fn is_hull(b: AABB, objects: Seq<Option<AABB>>, items: Set<int>) -> bool {
    &&& forall|i: int| #[trigger] items.contains(i) ==> bounded_at(objects, i) && b.contains(objects[i].unwrap())
    &&& exists|i: int| #[trigger] items.contains(i) && objects[i].unwrap().spec_minimum().x == b.spec_minimum().x
    &&& exists|i: int| #[trigger] items.contains(i) && objects[i].unwrap().spec_minimum().y == b.spec_minimum().y
    &&& exists|i: int| #[trigger] items.contains(i) && objects[i].unwrap().spec_minimum().z == b.spec_minimum().z
    &&& exists|i: int| #[trigger] items.contains(i) && objects[i].unwrap().spec_maximum().x == b.spec_maximum().x
    &&& exists|i: int| #[trigger] items.contains(i) && objects[i].unwrap().spec_maximum().y == b.spec_maximum().y
    &&& exists|i: int| #[trigger] items.contains(i) && objects[i].unwrap().spec_maximum().z == b.spec_maximum().z
}

/// A set of boxes has at most one hull.
pub proof fn lemma_hull_unique(a: AABB, b: AABB, objects: Seq<Option<AABB>>, items: Set<int>)
    requires
        is_hull(a, objects, items),
        is_hull(b, objects, items),
    ensures
        a == b,
{
    a.lemma_ext(b);
}

/// The hull of one box is that box.
pub proof fn lemma_hull_single(objects: Seq<Option<AABB>>, i: int)
    requires
        bounded_at(objects, i),
    ensures
        is_hull(objects[i].unwrap(), objects, set![i]),
{
    assert(set![i].contains(i));
}

/// The merge of the hulls of two sets of boxes is the hull of their union.
pub proof fn lemma_hull_union(
    a: AABB,
    b: AABB,
    objects: Seq<Option<AABB>>,
    left: Set<int>,
    right: Set<int>,
)
    requires
        is_hull(a, objects, left),
        is_hull(b, objects, right),
    ensures
        is_hull(a.merge(b), objects, left.union(right)),
{
    broadcast use AABB::lemma_corners;

    let m = a.merge(b);
    let u = left.union(right);
    assert forall|i: int| #[trigger] u.contains(i) implies bounded_at(objects, i) && m.contains(
        objects[i].unwrap(),
    ) by {
        if left.contains(i) {
        } else {
            assert(right.contains(i));
        }
    }
    let lx = choose|i: int| #[trigger] left.contains(i) && objects[i].unwrap().spec_minimum().x == a.spec_minimum().x;
    let rx = choose|i: int| #[trigger] right.contains(i) && objects[i].unwrap().spec_minimum().x == b.spec_minimum().x;
    assert(u.contains(lx) && u.contains(rx));
    let ly = choose|i: int| #[trigger] left.contains(i) && objects[i].unwrap().spec_minimum().y == a.spec_minimum().y;
    let ry = choose|i: int| #[trigger] right.contains(i) && objects[i].unwrap().spec_minimum().y == b.spec_minimum().y;
    assert(u.contains(ly) && u.contains(ry));
    let lz = choose|i: int| #[trigger] left.contains(i) && objects[i].unwrap().spec_minimum().z == a.spec_minimum().z;
    let rz = choose|i: int| #[trigger] right.contains(i) && objects[i].unwrap().spec_minimum().z == b.spec_minimum().z;
    assert(u.contains(lz) && u.contains(rz));
    let hx = choose|i: int| #[trigger] left.contains(i) && objects[i].unwrap().spec_maximum().x == a.spec_maximum().x;
    let kx = choose|i: int| #[trigger] right.contains(i) && objects[i].unwrap().spec_maximum().x == b.spec_maximum().x;
    assert(u.contains(hx) && u.contains(kx));
    let hy = choose|i: int| #[trigger] left.contains(i) && objects[i].unwrap().spec_maximum().y == a.spec_maximum().y;
    let ky = choose|i: int| #[trigger] right.contains(i) && objects[i].unwrap().spec_maximum().y == b.spec_maximum().y;
    assert(u.contains(hy) && u.contains(ky));
    let hz = choose|i: int| #[trigger] left.contains(i) && objects[i].unwrap().spec_maximum().z == a.spec_maximum().z;
    let kz = choose|i: int| #[trigger] right.contains(i) && objects[i].unwrap().spec_maximum().z == b.spec_maximum().z;
    assert(u.contains(hz) && u.contains(kz));
}

} // verus!
