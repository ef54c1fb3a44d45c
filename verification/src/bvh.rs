//! The bounding volume hierarchy: a binary tree of boxes over the objects of
//! a scene.

use crate::aabb::AABB;
use crate::arrange::{
    all_bounded, arranged, first_places, key, lemma_same_members, sort_along, spec_key,
};
use crate::hittable::{aggregate_box, all_items, lemma_aggregate_box, HittableList};
use crate::hull::{bounded_at, is_hull, lemma_hull_single, lemma_hull_union, lemma_hull_unique};
use crate::math::Axis;
use crate::random::random_below;
use crate::record::{limit, prefer, spec_limit, spec_prefer, HitRecord};
use vstd::prelude::*;

verus! {

/// Why no hierarchy could be built.
#[derive(Debug, Clone, Copy, PartialEq, Eq, Structural)]
pub enum BvhError {
    /// The collection holds no object.
    Empty,
    /// The object at this place has no bounding box.
    Unbounded(usize),
}

/// One side of a node: an object of the scene, by its place in the
/// collection, or a further node.
#[derive(Debug)]
pub enum Child {
    Leaf(usize),
    Inner(Box<BVHNode>),
}

/// A node of the hierarchy: two children and a box that holds both.
#[derive(Debug)]
pub struct BVHNode {
    aabb: AABB,
    left: Child,
    right: Child,
}

/// The places that a sequence names.
pub open spec fn item_set(items: Seq<usize>) -> Set<int> {
    Set::new(|i: int| 0 <= i <= usize::MAX && items.contains(i as usize))
}

/// The two objects in the order in which a node of two holds them: `a`
/// first if its key along `axis` is below that of `b`, else `b` first.
pub open spec fn spec_order_pair(
    objects: Seq<Option<AABB>>,
    a: usize,
    b: usize,
    axis: Axis,
) -> (usize, usize) {
    if spec_key(objects, a, axis) < spec_key(objects, b, axis) {
        (a, b)
    } else {
        (b, a)
    }
}

impl Child {
    /// The places of the objects below this child.
    pub open spec fn items(self) -> Set<int>
        decreases self,
    {
        match self {
            Child::Leaf(i) => set![i as int],
            Child::Inner(node) => node.items(),
        }
    }

    /// The box of this child: that of the object, or that of the node.
    pub open spec fn bounds(self, objects: Seq<Option<AABB>>) -> AABB {
        match self {
            Child::Leaf(i) => objects[i as int].unwrap(),
            Child::Inner(node) => node.spec_bounding_box(),
        }
    }

    /// Every leaf below names an object with a box, and every node's box is
    /// the merge of its children's boxes.
    pub open spec fn wf(self, objects: Seq<Option<AABB>>) -> bool
        decreases self,
    {
        match self {
            Child::Leaf(i) => bounded_at(objects, i as int),
            Child::Inner(node) => node.wf(objects),
        }
    }
}

impl BVHNode {
    pub closed spec fn spec_bounding_box(&self) -> AABB {
        self.aabb
    }

    pub closed spec fn spec_left(&self) -> Child {
        self.left
    }

    pub closed spec fn spec_right(&self) -> Child {
        self.right
    }

    /// The places of the objects below this node.
    pub open spec fn items(self) -> Set<int>
        decreases self,
    {
        self.spec_left().items().union(self.spec_right().items())
    }

    /// Every leaf below names an object with a box, and the box of this node
    /// and of every node below is the merge of its children's boxes.
    pub open spec fn wf(self, objects: Seq<Option<AABB>>) -> bool
        decreases self,
    {
        &&& self.spec_left().wf(objects)
        &&& self.spec_right().wf(objects)
        &&& self.spec_bounding_box() == self.spec_left().bounds(objects).merge(
            self.spec_right().bounds(objects),
        )
    }

    /// The node has the shape that building gives it over `items`.
    ///
    /// Over one object, both children are that object. Over two, the children
    /// are the two objects, ordered along some axis, the second first where
    /// their keys are equal. Over more, the objects are put in order along
    /// some axis and cut in the middle; the left child is a node built over
    /// the first half, the right child one built over the second.
    pub open spec fn built(self, objects: Seq<Option<AABB>>, items: Seq<usize>) -> bool
        decreases self, 1int,
    {
        if items.len() == 1 {
            self.spec_left() == Child::Leaf(items[0]) && self.spec_right() == Child::Leaf(items[0])
        } else if items.len() == 2 {
            exists|axis: Axis|
                self.pair_along(#[trigger] spec_order_pair(objects, items[0], items[1], axis))
        } else {
            exists|axis: Axis, sorted: Seq<usize>|
                #[trigger] arranged(objects, items, sorted, axis) && self.halves(objects, sorted)
        }
    }

    /// The children are the two objects of `pair`, in this order.
    pub open spec fn pair_along(self, pair: (usize, usize)) -> bool {
        self.spec_left() == Child::Leaf(pair.0) && self.spec_right() == Child::Leaf(pair.1)
    }

    /// The children are nodes built over the two halves of `sorted`.
    pub open spec fn halves(self, objects: Seq<Option<AABB>>, sorted: Seq<usize>) -> bool
        decreases self, 0int,
    {
        let mid = (sorted.len() / 2) as int;
        &&& self.spec_left() matches Child::Inner(l) && l.built(objects, sorted.take(mid))
        &&& self.spec_right() matches Child::Inner(r) && r.built(objects, sorted.skip(mid))
    }
}

/// The children of a node are smaller than the node, so that a proof may
/// descend into them.
pub proof fn lemma_children_smaller(node: BVHNode)
    ensures
        decreases_to!(node => node.spec_left()),
        decreases_to!(node => node.spec_right()),
{
}

/// The box of a well-formed child is the hull of the objects below it.
pub proof fn lemma_child_hull(child: Child, objects: Seq<Option<AABB>>)
    requires
        child.wf(objects),
    ensures
        is_hull(child.bounds(objects), objects, child.items()),
    decreases child,
{
    match child {
        Child::Leaf(i) => {
            lemma_hull_single(objects, i as int);
        },
        Child::Inner(node) => {
            lemma_node_hull(*node, objects);
        },
    }
}

/// The box of a well-formed node is the hull of the objects below it.
pub proof fn lemma_node_hull(node: BVHNode, objects: Seq<Option<AABB>>)
    requires
        node.wf(objects),
    ensures
        is_hull(node.spec_bounding_box(), objects, node.items()),
    decreases node,
{
    lemma_child_hull(node.spec_left(), objects);
    lemma_child_hull(node.spec_right(), objects);
    lemma_hull_union(
        node.spec_left().bounds(objects),
        node.spec_right().bounds(objects),
        objects,
        node.spec_left().items(),
        node.spec_right().items(),
    );
}

/// The box at the root of a hierarchy that holds every object of a
/// collection is the bounding box of the collection.
pub proof fn lemma_root_box_is_aggregate_box(node: BVHNode, objects: Seq<Option<AABB>>)
    requires
        node.wf(objects),
        node.items() == all_items(objects.len() as int),
    ensures
        aggregate_box(objects) == Some(node.spec_bounding_box()),
{
    lemma_node_hull(node, objects);
    lemma_aggregate_box(objects);
    lemma_children_smaller(node);
    lemma_child_nonempty(node.spec_left(), objects);
    let i = choose|i: int| node.spec_left().items().contains(i);
    assert(node.items().contains(i));
    assert(all_items(objects.len() as int).contains(i));
    assert forall|k: int| 0 <= k < objects.len() implies bounded_at(objects, k) by {
        assert(node.items().contains(k));
    }
    lemma_hull_unique(
        node.spec_bounding_box(),
        aggregate_box(objects).unwrap(),
        objects,
        all_items(objects.len() as int),
    );
}

/// A well-formed child holds at least one object.
pub proof fn lemma_child_nonempty(child: Child, objects: Seq<Option<AABB>>)
    requires
        child.wf(objects),
    ensures
        exists|i: int| child.items().contains(i),
    decreases child,
{
    match child {
        Child::Leaf(i) => {
            assert(child.items().contains(i as int));
        },
        Child::Inner(node) => {
            lemma_child_nonempty(node.spec_left(), objects);
            let i = choose|i: int| node.spec_left().items().contains(i);
            assert(node.items().contains(i));
            assert(child.items().contains(i));
        },
    }
}

/// The places named by a sequence are those named by its two parts.
pub proof fn lemma_item_set_split(items: Seq<usize>, mid: int)
    requires
        0 <= mid <= items.len(),
    ensures
        item_set(items) == item_set(items.take(mid)).union(item_set(items.skip(mid))),
{
    let l = items.take(mid);
    let r = items.skip(mid);
    assert forall|i: int| item_set(items).contains(i) <==> item_set(l).union(
        item_set(r),
    ).contains(i) by {
        if item_set(items).contains(i) {
            let k = choose|k: int| 0 <= k < items.len() && items[k] == i as usize;
            if k < mid {
                assert(l[k] == i as usize);
            } else {
                assert(r[k - mid] == i as usize);
            }
        }
        if item_set(l).contains(i) {
            let k = choose|k: int| 0 <= k < l.len() && l[k] == i as usize;
            assert(items[k] == i as usize);
        }
        if item_set(r).contains(i) {
            let k = choose|k: int| 0 <= k < r.len() && r[k] == i as usize;
            assert(items[k + mid] == i as usize);
        }
    }
    assert(item_set(items) =~= item_set(l).union(item_set(r)));
}

/// The first `n` places, in order, name every place below `n`.
pub proof fn lemma_first_places(n: nat)
    requires
        n <= usize::MAX,
    ensures
        item_set(first_places(n)) == all_items(n as int),
{
    let s = first_places(n);
    assert forall|i: int| item_set(s).contains(i) <==> all_items(n as int).contains(i) by {
        if all_items(n as int).contains(i) {
            assert(s[i] == i as usize);
        }
    }
    assert(item_set(s) =~= all_items(n as int));
}

impl BVHNode {
    /// The box that holds everything below this node.
    pub fn bounding_box(&self) -> (r: AABB)
        ensures
            r == self.spec_bounding_box(),
    {
        self.aabb
    }

    /// The left child.
    pub fn left(&self) -> (r: &Child)
        ensures
            *r == self.spec_left(),
    {
        &self.left
    }

    /// The right child.
    pub fn right(&self) -> (r: &Child)
        ensures
            *r == self.spec_right(),
    {
        &self.right
    }

    /// Builds the hierarchy over the objects of `list`.
    ///
    /// This fails if the list is empty, or if one of its objects has no
    /// bounding box; the error names the first such object. Otherwise the
    /// hierarchy holds every object of the list, has the shape that `built`
    /// describes, and the box of its root is the bounding box of the list.
    pub fn new(list: HittableList) -> (r: Result<Self, BvhError>)
        ensures
            r is Ok <==> aggregate_box(list@) is Some,
            r matches Ok(node) ==> {
                &&& node.wf(list@)
                &&& node.items() == all_items(list@.len() as int)
                &&& node.built(list@, first_places(list@.len()))
                &&& Some(node.spec_bounding_box()) == aggregate_box(list@)
            },
            r matches Err(e) ==> match e {
                BvhError::Empty => list@.len() == 0,
                BvhError::Unbounded(i) => {
                    &&& i < list@.len()
                    &&& list@[i as int] is None
                    &&& forall|k: int| 0 <= k < i ==> bounded_at(list@, k)
                },
            },
    {
        proof {
            lemma_aggregate_box(list@);
        }
        let objects: Vec<Option<AABB>> = list.as_raw();
        if objects.len() == 0 {
            return Err(BvhError::Empty);
        }
        let mut items: Vec<usize> = Vec::new();
        let mut i: usize = 0;
        while i < objects.len()
            invariant
                i <= objects.len(),
                objects@ == list@,
                items@ == first_places(i as nat),
                forall|k: int| 0 <= k < i ==> bounded_at(objects@, k),
            decreases objects.len() - i,
        {
            if objects[i].is_none() {
                proof {
                    lemma_aggregate_box(objects@);
                    assert(!bounded_at(objects@, i as int));
                }
                return Err(BvhError::Unbounded(i));
            }
            items.push(i);
            proof {
                assert(items@ =~= first_places((i + 1) as nat));
            }
            i = i + 1;
        }
        let node: BVHNode = BVHNode::new_inner(&objects, &items);
        proof {
            lemma_aggregate_box(objects@);
            lemma_first_places(objects@.len());
            lemma_root_box_is_aggregate_box(node, objects@);
        }
        Ok(node)
    }

    /// Builds a node over the objects named in `items`, drawing the axis
    /// along which they are ordered anew for this node and for each below.
    fn new_inner(objects: &Vec<Option<AABB>>, items: &Vec<usize>) -> (r: Self)
        requires
            items@.len() >= 1,
            all_bounded(objects@, items@),
        ensures
            r.wf(objects@),
            r.items() == item_set(items@),
            r.built(objects@, items@),
        decreases items@.len(),
    {
        let n: usize = items.len();
        let axis: Axis = random_axis();
        if n == 1 {
            let only: usize = items[0];
            proof {
                assert(bounded_at(objects@, items@[0] as int));
                assert(item_set(items@) =~= set![only as int]) by {
                    assert(items@[0] == only);
                    assert forall|i: int| item_set(items@).contains(i) implies i == only as int by {
                        let k = choose|k: int| 0 <= k < items@.len() && items@[k] == i as usize;
                    }
                }
            }
            BVHNode::join(objects, Child::Leaf(only), Child::Leaf(only))
        } else if n == 2 {
            proof {
                assert(bounded_at(objects@, items@[0] as int));
                assert(bounded_at(objects@, items@[1] as int));
            }
            let pair: (usize, usize) = order_pair(objects, items[0], items[1], axis);
            proof {
                assert(item_set(items@) =~= set![pair.0 as int].union(set![pair.1 as int])) by {
                    assert(items@[0] == pair.0 || items@[0] == pair.1);
                    assert(items@[1] == pair.0 || items@[1] == pair.1);
                    assert forall|i: int| item_set(items@).contains(i) implies i == pair.0 as int
                        || i == pair.1 as int by {
                        let k = choose|k: int| 0 <= k < items@.len() && items@[k] == i as usize;
                    }
                }
            }
            let node: BVHNode = BVHNode::join(objects, Child::Leaf(pair.0), Child::Leaf(pair.1));
            proof {
                assert(node.pair_along(spec_order_pair(objects@, items@[0], items@[1], axis)));
            }
            node
        } else {
            let mut first: Vec<usize> = sort_along(objects, items, axis);
            let mid: usize = n / 2;
            let ghost sorted = first@;
            let second: Vec<usize> = first.split_off(mid);
            proof {
                assert(first@ =~= sorted.take(mid as int));
                assert(second@ =~= sorted.skip(mid as int));
                assert forall|k: int| 0 <= k < first@.len() implies bounded_at(
                    objects@,
                    #[trigger] first@[k] as int,
                ) by {
                    assert(first@[k] == sorted[k]);
                }
                assert forall|k: int| 0 <= k < second@.len() implies bounded_at(
                    objects@,
                    #[trigger] second@[k] as int,
                ) by {
                    assert(second@[k] == sorted[k + mid]);
                }
            }
            let l: BVHNode = BVHNode::new_inner(objects, &first);
            let r: BVHNode = BVHNode::new_inner(objects, &second);
            let node: BVHNode = BVHNode::join(
                objects,
                Child::Inner(Box::new(l)),
                Child::Inner(Box::new(r)),
            );
            proof {
                lemma_item_set_split(sorted, mid as int);
                lemma_same_members(sorted, items@);
                assert(item_set(sorted) =~= item_set(items@));
                assert(arranged(objects@, items@, sorted, axis));
                assert(node.halves(objects@, sorted));
            }
            node
        }
    }

    /// The node over two children, its box the merge of theirs.
    fn join(objects: &Vec<Option<AABB>>, left: Child, right: Child) -> (r: Self)
        requires
            left.wf(objects@),
            right.wf(objects@),
        ensures
            r.spec_left() == left,
            r.spec_right() == right,
            r.wf(objects@),
            r.items() == left.items().union(right.items()),
    {
        let box_left: AABB = child_box(objects, &left);
        let box_right: AABB = child_box(objects, &right);
        Self { aabb: AABB::surrounding_box(&box_left, &box_right), left, right }
    }
}

/// The box of a child: that of the object it names, or that of the node.
fn child_box(objects: &Vec<Option<AABB>>, child: &Child) -> (r: AABB)
    requires
        child.wf(objects@),
    ensures
        r == child.bounds(objects@),
{
    match child {
        Child::Leaf(i) => match &objects[*i] {
            Some(aabb) => *aabb,
            None => AABB::new(
                crate::math::Point::new(0, 0, 0),
                crate::math::Point::new(0, 0, 0),
            ),
        },
        Child::Inner(node) => node.bounding_box(),
    }
}

/// The axis with the given number: 0 is X, 1 is Y, anything else is Z.
pub fn axis_of(index: usize) -> (r: Axis)
    ensures
        r == Axis::from_index(index as int),
{
    if index == 0 {
        Axis::X
    } else if index == 1 {
        Axis::Y
    } else {
        Axis::Z
    }
}

/// Draws one of the three axes.
fn random_axis() -> (r: Axis) {
    axis_of(random_below(3))
}

/// The two objects in the order in which a node of two holds them.
pub fn order_pair(objects: &Vec<Option<AABB>>, a: usize, b: usize, axis: Axis) -> (r: (
    usize,
    usize,
))
    requires
        bounded_at(objects@, a as int),
        bounded_at(objects@, b as int),
    ensures
        r == spec_order_pair(objects@, a, b, axis),
{
    if key(objects, a, axis) < key(objects, b, axis) {
        (a, b)
    } else {
        (b, a)
    }
}

/// `found` is what a search below `node` may find between `t_min` and
/// `t_max`, where `probe` intersects the ray with one object and `inside`
/// tests it against one box.
///
/// Nothing is found where the ray misses the node's box. Else the left child
/// is searched, then the right child only as far as the hit found on the
/// left, and a hit on the right replaces the one on the left.
pub open spec fn walked<
    F: Fn(usize, i64, i64) -> Option<HitRecord>,
    G: Fn(AABB, i64, i64) -> bool,
>(node: BVHNode, probe: F, inside: G, t_min: i64, t_max: i64, found: Option<HitRecord>) -> bool {
    ||| inside.ensures((node.spec_bounding_box(), t_min, t_max), false) && found is None
    ||| inside.ensures((node.spec_bounding_box(), t_min, t_max), true) && exists|
        l: Option<HitRecord>,
        r: Option<HitRecord>,
    |
        {
            &&& searched(node.spec_left(), probe, inside, t_min, t_max, l)
            &&& searched(node.spec_right(), probe, inside, t_min, spec_limit(l, t_max), r)
            &&& found == #[trigger] spec_prefer(l, r)
        }
}

/// `found` is what a search of `child` may find between `t_min` and `t_max`:
/// what `probe` reports of the object, or what a search below the node finds.
pub open spec fn searched<
    F: Fn(usize, i64, i64) -> Option<HitRecord>,
    G: Fn(AABB, i64, i64) -> bool,
>(child: Child, probe: F, inside: G, t_min: i64, t_max: i64, found: Option<HitRecord>) -> bool
    decreases child,
{
    match child {
        Child::Leaf(i) => probe.ensures((i, t_min, t_max), found),
        Child::Inner(node) => {
            ||| inside.ensures((node.spec_bounding_box(), t_min, t_max), false) && found is None
            ||| inside.ensures((node.spec_bounding_box(), t_min, t_max), true) && exists|
                l: Option<HitRecord>,
                r: Option<HitRecord>,
            |
                {
                    &&& searched(node.spec_left(), probe, inside, t_min, t_max, l)
                    &&& searched(
                        node.spec_right(),
                        probe,
                        inside,
                        t_min,
                        spec_limit(l, t_max),
                        r,
                    )
                    &&& found == #[trigger] spec_prefer(l, r)
                }
        },
    }
}

/// A search of a child that is a node is a search below that node.
pub proof fn lemma_searched_inner<
    F: Fn(usize, i64, i64) -> Option<HitRecord>,
    G: Fn(AABB, i64, i64) -> bool,
>(node: BVHNode, probe: F, inside: G, t_min: i64, t_max: i64, found: Option<HitRecord>)
    ensures
        searched(Child::Inner(Box::new(node)), probe, inside, t_min, t_max, found) == walked(
            node,
            probe,
            inside,
            t_min,
            t_max,
            found,
        ),
{
}

impl Child {
    /// The nearest hit of a ray with what lies below this child.
    pub fn hit<F: Fn(usize, i64, i64) -> Option<HitRecord>, G: Fn(AABB, i64, i64) -> bool>(
        &self,
        probe: &F,
        inside: &G,
        t_min: i64,
        t_max: i64,
    ) -> (r: Option<HitRecord>)
        requires
            forall|i: usize, a: i64, b: i64|
                self.items().contains(i as int) ==> #[trigger] probe.requires((i, a, b)),
            forall|c: AABB, a: i64, b: i64| #[trigger] inside.requires((c, a, b)),
        ensures
            searched(*self, *probe, *inside, t_min, t_max, r),
        decreases self, 0int,
    {
        match self {
            Child::Leaf(i) => {
                assert(self.items().contains(*i as int));
                probe(*i, t_min, t_max)
            },
            Child::Inner(node) => {
                let found: Option<HitRecord> = node.hit(probe, inside, t_min, t_max);
                proof {
                    lemma_searched_inner(**node, *probe, *inside, t_min, t_max, found);
                }
                found
            },
        }
    }
}

impl BVHNode {
    /// The nearest hit of a ray with the objects below this node between
    /// `t_min` and `t_max`, where `probe(i, t_min, limit)` intersects the ray
    /// with object `i` up to `limit` and `inside(b, t_min, limit)` tests the
    /// ray against the box `b`.
    pub fn hit<F: Fn(usize, i64, i64) -> Option<HitRecord>, G: Fn(AABB, i64, i64) -> bool>(
        &self,
        probe: &F,
        inside: &G,
        t_min: i64,
        t_max: i64,
    ) -> (r: Option<HitRecord>)
        requires
            forall|i: usize, a: i64, b: i64|
                self.items().contains(i as int) ==> #[trigger] probe.requires((i, a, b)),
            forall|c: AABB, a: i64, b: i64| #[trigger] inside.requires((c, a, b)),
        ensures
            walked(*self, *probe, *inside, t_min, t_max, r),
        decreases self, 1int,
    {
        if !inside(self.aabb, t_min, t_max) {
            return None;
        }
        proof {
            assert forall|i: usize, a: i64, b: i64|
                self.spec_left().items().contains(i as int) implies #[trigger] probe.requires(
                (i, a, b),
            ) by {
                assert(self.items().contains(i as int));
            }
            assert forall|i: usize, a: i64, b: i64|
                self.spec_right().items().contains(i as int) implies #[trigger] probe.requires(
                (i, a, b),
            ) by {
                assert(self.items().contains(i as int));
            }
        }
        let left_hit: Option<HitRecord> = self.left.hit(probe, inside, t_min, t_max);
        let right_hit: Option<HitRecord> = self.right.hit(
            probe,
            inside,
            t_min,
            limit(left_hit, t_max),
        );
        let found: Option<HitRecord> = prefer(left_hit, right_hit);
        proof {
            assert(inside.ensures((self.spec_bounding_box(), t_min, t_max), true));
            assert(searched(self.spec_left(), *probe, *inside, t_min, t_max, left_hit));
            assert(searched(
                self.spec_right(),
                *probe,
                *inside,
                t_min,
                spec_limit(left_hit, t_max),
                right_hit,
            ));
        }
        found
    }
}

} // verus!
