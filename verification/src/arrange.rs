//! Putting objects in order along an axis.

use crate::aabb::AABB;
use crate::hull::bounded_at;
use crate::math::Axis;
use vstd::prelude::*;

verus! {

/// The places `0, 1, ..` up to `n`, in order.
pub open spec fn first_places(n: nat) -> Seq<usize> {
    Seq::new(n, |i: int| i as usize)
}

/// Every place named in `items` holds an object with a bounding box.
pub open spec fn all_bounded(objects: Seq<Option<AABB>>, items: Seq<usize>) -> bool {
    forall|k: int| 0 <= k < items.len() ==> bounded_at(objects, #[trigger] items[k] as int)
}

/// The rank by which object `i` is placed along `axis`: the minimum of its
/// bounding box on that axis.
pub open spec fn spec_key(objects: Seq<Option<AABB>>, i: usize, axis: Axis) -> i64 {
    objects[i as int].unwrap().spec_minimum().spec_get(axis)
}

/// The objects named in `items` come in non-decreasing order of their keys.
pub open spec fn ordered(objects: Seq<Option<AABB>>, items: Seq<usize>, axis: Axis) -> bool {
    forall|i: int, j: int|
        0 <= i < j < items.len() ==> spec_key(objects, #[trigger] items[i], axis) <= spec_key(
            objects,
            #[trigger] items[j],
            axis,
        )
}

/// `after` names the same objects as `before`, each as often, in
/// non-decreasing order of their keys along `axis`.
pub open spec fn arranged(
    objects: Seq<Option<AABB>>,
    before: Seq<usize>,
    after: Seq<usize>,
    axis: Axis,
) -> bool {
    &&& after.to_multiset() == before.to_multiset()
    &&& after.len() == before.len()
    &&& ordered(objects, after, axis)
}

/// The rank by which object `i` is placed along `axis`.
pub fn key(objects: &Vec<Option<AABB>>, i: usize, axis: Axis) -> (r: i64)
    requires
        bounded_at(objects@, i as int),
    ensures
        r == spec_key(objects@, i, axis),
{
    match &objects[i] {
        Some(aabb) => aabb.minimum().get(axis),
        None => 0,
    }
}

/// Sequences that name the same objects equally often name the same objects.
pub proof fn lemma_same_members(a: Seq<usize>, b: Seq<usize>)
    requires
        a.to_multiset() == b.to_multiset(),
    ensures
        forall|x: usize| a.contains(x) <==> b.contains(x),
        a.len() == b.len(),
{
    broadcast use vstd::seq_lib::to_multiset_contains;

    a.to_multiset_ensures();
    b.to_multiset_ensures();
    assert forall|x: usize| a.contains(x) <==> b.contains(x) by {
        assert(a.contains(x) <==> a.to_multiset().count(x) > 0);
        assert(b.contains(x) <==> b.to_multiset().count(x) > 0);
    }
}

/// The part of `items` from place `from` up to place `to`.
fn part(items: &Vec<usize>, from: usize, to: usize) -> (r: Vec<usize>)
    requires
        from <= to <= items@.len(),
    ensures
        r@ == items@.subrange(from as int, to as int),
{
    let mut r: Vec<usize> = Vec::new();
    let mut i: usize = from;
    while i < to
        invariant
            from <= i <= to <= items@.len(),
            r@ == items@.subrange(from as int, i as int),
        decreases to - i,
    {
        r.push(items[i]);
        proof {
            assert(r@ =~= items@.subrange(from as int, i + 1));
        }
        i = i + 1;
    }
    r
}

/// Merges two sorted runs into one. Where an object of `first` and one of
/// `second` have equal keys, the one of `first` comes first.
fn merge_runs(
    objects: &Vec<Option<AABB>>,
    first: &Vec<usize>,
    second: &Vec<usize>,
    axis: Axis,
) -> (r: Vec<usize>)
    requires
        all_bounded(objects@, first@),
        all_bounded(objects@, second@),
        ordered(objects@, first@, axis),
        ordered(objects@, second@, axis),
        first@.len() + second@.len() <= usize::MAX,
    ensures
        arranged(objects@, first@ + second@, r@, axis),
        all_bounded(objects@, r@),
{
    let mut out: Vec<usize> = Vec::new();
    let mut i: usize = 0;
    let mut j: usize = 0;
    proof {
        assert(first@.take(0) + second@.take(0) =~= Seq::<usize>::empty());
    }
    while i < first.len() || j < second.len()
        invariant
            i <= first@.len(),
            j <= second@.len(),
            first@.len() + second@.len() <= usize::MAX,
            all_bounded(objects@, first@),
            all_bounded(objects@, second@),
            all_bounded(objects@, out@),
            ordered(objects@, first@, axis),
            ordered(objects@, second@, axis),
            ordered(objects@, out@, axis),
            out@.len() == i + j,
            out@.to_multiset() == (first@.take(i as int) + second@.take(j as int)).to_multiset(),
            forall|k: int, m: int|
                0 <= k < out@.len() && i <= m < first@.len() ==> spec_key(
                    objects@,
                    #[trigger] out@[k],
                    axis,
                ) <= spec_key(objects@, #[trigger] first@[m], axis),
            forall|k: int, m: int|
                0 <= k < out@.len() && j <= m < second@.len() ==> spec_key(
                    objects@,
                    #[trigger] out@[k],
                    axis,
                ) <= spec_key(objects@, #[trigger] second@[m], axis),
        decreases first@.len() - i + second@.len() - j,
    {
        let from_first: bool = if i >= first.len() {
            false
        } else if j >= second.len() {
            true
        } else {
            proof {
                assert(bounded_at(objects@, first@[i as int] as int));
                assert(bounded_at(objects@, second@[j as int] as int));
            }
            key(objects, first[i], axis) <= key(objects, second[j], axis)
        };
        let ghost before = out@;
        let ghost joined = first@.take(i as int) + second@.take(j as int);
        if from_first {
            let x: usize = first[i];
            out.push(x);
            proof {
                let next = first@.take(i + 1) + second@.take(j as int);
                assert(next =~= joined.insert(i as int, x));
                vstd::seq_lib::to_multiset_insert(joined, i as int, x);
                vstd::seq_lib::to_multiset_build(before, x);
                assert forall|k: int, m: int|
                    0 <= k < out@.len() && j <= m < second@.len() implies spec_key(
                    objects@,
                    #[trigger] out@[k],
                    axis,
                ) <= spec_key(objects@, #[trigger] second@[m], axis) by {
                    if k == before.len() {
                        if j < second@.len() {
                            assert(spec_key(objects@, second@[j as int], axis) <= spec_key(
                                objects@,
                                second@[m],
                                axis,
                            ));
                        }
                    } else {
                        assert(out@[k] == before[k]);
                    }
                }
                assert forall|k: int, m: int|
                    0 <= k < out@.len() && i + 1 <= m < first@.len() implies spec_key(
                    objects@,
                    #[trigger] out@[k],
                    axis,
                ) <= spec_key(objects@, #[trigger] first@[m], axis) by {
                    if k < before.len() {
                        assert(out@[k] == before[k]);
                    }
                }
                assert forall|a: int, b: int| 0 <= a < b < out@.len() implies spec_key(
                    objects@,
                    #[trigger] out@[a],
                    axis,
                ) <= spec_key(objects@, #[trigger] out@[b], axis) by {
                    assert(out@[a] == before[a]);
                    if b < before.len() {
                        assert(out@[b] == before[b]);
                    }
                }
                assert forall|k: int| 0 <= k < out@.len() implies bounded_at(
                    objects@,
                    #[trigger] out@[k] as int,
                ) by {
                    if k < before.len() {
                        assert(out@[k] == before[k]);
                    }
                }
            }
            i = i + 1;
        } else {
            let x: usize = second[j];
            out.push(x);
            proof {
                let next = first@.take(i as int) + second@.take(j + 1);
                assert(next =~= joined.push(x));
                vstd::seq_lib::to_multiset_build(joined, x);
                vstd::seq_lib::to_multiset_build(before, x);
                assert forall|k: int, m: int|
                    0 <= k < out@.len() && i <= m < first@.len() implies spec_key(
                    objects@,
                    #[trigger] out@[k],
                    axis,
                ) <= spec_key(objects@, #[trigger] first@[m], axis) by {
                    if k == before.len() {
                        assert(spec_key(objects@, first@[i as int], axis) <= spec_key(
                            objects@,
                            first@[m],
                            axis,
                        ));
                    } else {
                        assert(out@[k] == before[k]);
                    }
                }
                assert forall|k: int, m: int|
                    0 <= k < out@.len() && j + 1 <= m < second@.len() implies spec_key(
                    objects@,
                    #[trigger] out@[k],
                    axis,
                ) <= spec_key(objects@, #[trigger] second@[m], axis) by {
                    if k < before.len() {
                        assert(out@[k] == before[k]);
                    }
                }
                assert forall|a: int, b: int| 0 <= a < b < out@.len() implies spec_key(
                    objects@,
                    #[trigger] out@[a],
                    axis,
                ) <= spec_key(objects@, #[trigger] out@[b], axis) by {
                    assert(out@[a] == before[a]);
                    if b < before.len() {
                        assert(out@[b] == before[b]);
                    }
                }
                assert forall|k: int| 0 <= k < out@.len() implies bounded_at(
                    objects@,
                    #[trigger] out@[k] as int,
                ) by {
                    if k < before.len() {
                        assert(out@[k] == before[k]);
                    }
                }
            }
            j = j + 1;
        }
    }
    proof {
        assert(first@.take(i as int) =~= first@);
        assert(second@.take(j as int) =~= second@);
    }
    out
}

/// Sorts the objects named in `items` by their keys along `axis`. Objects
/// with equal keys keep the order in which `items` names them.
pub fn sort_along(objects: &Vec<Option<AABB>>, items: &Vec<usize>, axis: Axis) -> (r: Vec<usize>)
    requires
        all_bounded(objects@, items@),
    ensures
        arranged(objects@, items@, r@, axis),
        all_bounded(objects@, r@),
    decreases items@.len(),
{
    let n: usize = items.len();
    if n <= 1 {
        let r: Vec<usize> = part(items, 0, n);
        proof {
            assert(r@ =~= items@);
        }
        return r;
    }
    let mid: usize = n / 2;
    let front: Vec<usize> = part(items, 0, mid);
    let back: Vec<usize> = part(items, mid, n);
    proof {
        assert(items@ =~= front@ + back@);
        assert forall|k: int| 0 <= k < front@.len() implies bounded_at(
            objects@,
            #[trigger] front@[k] as int,
        ) by {
            assert(front@[k] == items@[k]);
        }
        assert forall|k: int| 0 <= k < back@.len() implies bounded_at(
            objects@,
            #[trigger] back@[k] as int,
        ) by {
            assert(back@[k] == items@[k + mid]);
        }
    }
    let first: Vec<usize> = sort_along(objects, &front, axis);
    let second: Vec<usize> = sort_along(objects, &back, axis);
    let r: Vec<usize> = merge_runs(objects, &first, &second, axis);
    proof {
        vstd::seq_lib::lemma_multiset_commutative(first@, second@);
        vstd::seq_lib::lemma_multiset_commutative(front@, back@);
    }
    r
}

} // verus!
