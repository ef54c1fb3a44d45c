//! The lattice of Perlin noise: three shuffled tables that scatter the
//! corners of each lattice cell over a table of gradients.

use crate::arrange::{first_places, lemma_same_members};
use crate::math::Point;
use crate::random::random_below;
use vstd::prelude::*;

verus! {

/// The number of gradients, and of entries in each table.
pub const POINT_COUNT: usize = 256;

/// The number of octaves that turbulence sums when nothing else is asked.
pub const DEFAULT_TURBULENCE_DEPTH: usize = 7;

/// `table` holds each of the places `0 .. table.len()` exactly once.
pub open spec fn is_permutation(table: Seq<usize>) -> bool {
    table.to_multiset() == first_places(table.len()).to_multiset()
}

/// Every entry of a permutation is a place of the table.
pub proof fn lemma_permutation_entries(table: Seq<usize>)
    requires
        is_permutation(table),
    ensures
        forall|i: int| 0 <= i < table.len() ==> #[trigger] table[i] < table.len(),
{
    let places = first_places(table.len());
    lemma_same_members(table, places);
    assert forall|i: int| 0 <= i < table.len() implies #[trigger] table[i] < table.len() by {
        assert(table.contains(table[i]));
        assert(places.contains(table[i]));
        let k = choose|k: int| 0 <= k < places.len() && places[k] == table[i];
        assert(places[k] == k as usize);
    }
}

/// The low eight bits of a lattice coordinate, as a place in a table.
pub open spec fn spec_wrap(c: int) -> int {
    c % 256
}

/// The low eight bits of `cell + step`, as a place in a table.
pub fn wrap(cell: i32, step: u8) -> (r: usize)
    ensures
        r == spec_wrap(cell + step),
        r < POINT_COUNT,
{
    let c: i64 = cell as i64 + step as i64;
    let m: i64 = c % 256;
    let w: i64 = if m < 0 {
        m + 256
    } else {
        m
    };
    w as usize
}

/// Exchanges the entries at two places of a table.
pub fn exchange(p: &mut Vec<usize>, i: usize, j: usize)
    requires
        i < old(p)@.len(),
        j < old(p)@.len(),
    ensures
        final(p)@ == old(p)@.update(i as int, old(p)@[j as int]).update(
            j as int,
            old(p)@[i as int],
        ),
        final(p)@.to_multiset() == old(p)@.to_multiset(),
        final(p)@.len() == old(p)@.len(),
{
    let a: usize = p[i];
    let b: usize = p[j];
    proof {
        let s0 = p@;
        let s1 = s0.update(i as int, b);
        vstd::seq_lib::to_multiset_update(s0, i as int, b);
        vstd::seq_lib::to_multiset_update(s1, j as int, a);
        s0.to_multiset_ensures();
        assert(s0.to_multiset().count(a) > 0) by {
            assert(s0.contains(a));
            vstd::seq_lib::to_multiset_contains(s0, a);
        }
        assert(s1[j as int] == if i == j { b } else { s0[j as int] });
        assert(s1.update(j as int, a).to_multiset() =~= s0.to_multiset());
    }
    p[i] = b;
    p[j] = a;
}

/// The gradients of a noise field and the three tables that assign them to
/// lattice corners.
pub struct Perlin {
    ran: Vec<Point>,
    perm_x: Vec<usize>,
    perm_y: Vec<usize>,
    perm_z: Vec<usize>,
}

impl Perlin {
    pub closed spec fn gradients(&self) -> Seq<Point> {
        self.ran@
    }

    pub closed spec fn table_x(&self) -> Seq<usize> {
        self.perm_x@
    }

    pub closed spec fn table_y(&self) -> Seq<usize> {
        self.perm_y@
    }

    pub closed spec fn table_z(&self) -> Seq<usize> {
        self.perm_z@
    }

    /// There are `POINT_COUNT` gradients, and each table is a permutation of
    /// their places. This holds of every noise field.
    #[verifier::type_invariant]
    pub open spec fn wf(&self) -> bool {
        &&& self.gradients().len() == POINT_COUNT
        &&& self.table_x().len() == POINT_COUNT
        &&& self.table_y().len() == POINT_COUNT
        &&& self.table_z().len() == POINT_COUNT
        &&& is_permutation(self.table_x())
        &&& is_permutation(self.table_y())
        &&& is_permutation(self.table_z())
    }

    /// The place in the gradient table of the lattice corner that lies
    /// `(di, dj, dk)` from the cell `(i, j, k)`: the three table entries at the
    /// low eight bits of the corner's coordinates, combined bit by bit.
    pub open spec fn spec_corner_place(
        &self,
        i: int,
        j: int,
        k: int,
        di: int,
        dj: int,
        dk: int,
    ) -> usize {
        self.table_x()[spec_wrap(i + di)] ^ self.table_y()[spec_wrap(j + dj)]
            ^ self.table_z()[spec_wrap(k + dk)]
    }

    /// A noise field over the given gradients, with freshly shuffled tables.
    /// There is none unless exactly `POINT_COUNT` gradients are given.
    pub fn new(ran: Vec<Point>) -> (r: Option<Self>)
        ensures
            r is Some <==> ran@.len() == POINT_COUNT,
            r matches Some(p) ==> p.wf() && p.gradients() == ran@,
    {
        if ran.len() != POINT_COUNT {
            return None;
        }
        let perm_x: Vec<usize> = Self::generate_perm();
        let perm_y: Vec<usize> = Self::generate_perm();
        let perm_z: Vec<usize> = Self::generate_perm();
        Some(Self { ran, perm_x, perm_y, perm_z })
    }

    /// A shuffled table of the places `0 .. POINT_COUNT`.
    pub fn generate_perm() -> (p: Vec<usize>)
        ensures
            p@.len() == POINT_COUNT,
            is_permutation(p@),
    {
        let mut p: Vec<usize> = Vec::new();
        let mut i: usize = 0;
        while i < POINT_COUNT
            invariant
                i <= POINT_COUNT,
                p@ == first_places(i as nat),
            decreases POINT_COUNT - i,
        {
            p.push(i);
            proof {
                assert(p@ =~= first_places((i + 1) as nat));
            }
            i = i + 1;
        }
        Self::permute(&mut p);
        p
    }

    /// Shuffles a table in place: from the last place but one down to the
    /// first, the entry at each place changes places with one drawn from the
    /// places up to it. The last entry stays where it is.
    pub fn permute(p: &mut Vec<usize>)
        ensures
            exists|draws: Seq<usize>|
                in_reach(draws, old(p)@.len()) && final(p)@ == #[trigger] shuffled(
                    old(p)@,
                    draws,
                ),
            final(p)@.to_multiset() == old(p)@.to_multiset(),
            final(p)@.len() == old(p)@.len(),
            old(p)@.len() > 0 ==> final(p)@.last() == old(p)@.last(),
    {
        if p.len() < 2 {
            proof {
                let none = Seq::<usize>::empty();
                assert(in_reach(none, p@.len()));
                assert(p@ == shuffled(p@, none));
            }
            return ;
        }
        let mut i: usize = p.len() - 1;
        let ghost mut drawn: Seq<usize> = Seq::new((p@.len() - 1) as nat, |k: int| k as usize);
        while i > 0
            invariant
                i < p@.len(),
                p@.len() == old(p)@.len(),
                p@.to_multiset() == old(p)@.to_multiset(),
                p@.last() == old(p)@.last(),
                in_reach(drawn, old(p)@.len()),
                p@ == shuffled_from(old(p)@, drawn, i as int),
            decreases i,
        {
            i = i - 1;
            let target: usize = random_below(i + 1);
            let ghost before = p@;
            exchange(p, i, target);
            proof {
                let next = drawn.update(i as int, target);
                lemma_later_draws(old(p)@, drawn, next, i + 1);
                assert(next[i as int] == target);
                assert(p@ == exchanged(before, i as int, target as int));
                drawn = next;
            }
        }
        proof {
            assert(p@ == shuffled(old(p)@, drawn));
        }
    }

    /// The place in the gradient table of one corner of a lattice cell.
    pub fn corner_place(&self, i: i32, j: i32, k: i32, di: u8, dj: u8, dk: u8) -> (r: usize)
        ensures
            r == self.spec_corner_place(i as int, j as int, k as int, di as int, dj as int, dk as int),
            r < POINT_COUNT,
    {
        proof {
            use_type_invariant(self);
        }
        let x: usize = self.perm_x[wrap(i, di)];
        let y: usize = self.perm_y[wrap(j, dj)];
        let z: usize = self.perm_z[wrap(k, dk)];
        proof {
            lemma_permutation_entries(self.table_x());
            lemma_permutation_entries(self.table_y());
            lemma_permutation_entries(self.table_z());
            assert((x ^ y ^ z) < 256) by (bit_vector)
                requires
                    x < 256,
                    y < 256,
                    z < 256,
            ;
        }
        x ^ y ^ z
    }

    /// The gradients at the eight corners of the lattice cell `(i, j, k)`.
    /// The corner that lies `(di, dj, dk)` from the cell, each step 0 or 1,
    /// stands at place `4 * di + 2 * dj + dk` of the result.
    pub fn noise(&self, i: i32, j: i32, k: i32) -> (c: Vec<Point>)
        ensures
            self.wf(),
            c@.len() == 8,
            forall|di: int, dj: int, dk: int|
                0 <= di < 2 && 0 <= dj < 2 && 0 <= dk < 2 ==> c@[4 * di + 2 * dj + dk]
                    == self.gradients()[#[trigger] self.spec_corner_place(
                    i as int,
                    j as int,
                    k as int,
                    di,
                    dj,
                    dk,
                ) as int],
    {
        proof {
            use_type_invariant(self);
        }
        let mut c: Vec<Point> = Vec::new();
        let mut n: u8 = 0;
        while n < 8
            invariant
                n <= 8,
                self.wf(),
                c@.len() == n,
                forall|m: int|
                    0 <= m < n ==> c@[m] == self.gradients()[self.spec_corner_place(
                        i as int,
                        j as int,
                        k as int,
                        m / 4,
                        (m / 2) % 2,
                        m % 2,
                    ) as int],
            decreases 8 - n,
        {
            let di: u8 = n / 4;
            let dj: u8 = (n / 2) % 2;
            let dk: u8 = n % 2;
            let place: usize = self.corner_place(i, j, k, di, dj, dk);
            c.push(self.ran[place]);
            n = n + 1;
        }
        proof {
            assert forall|di: int, dj: int, dk: int|
                0 <= di < 2 && 0 <= dj < 2 && 0 <= dk < 2 implies c@[4 * di + 2 * dj + dk]
                == self.gradients()[#[trigger] self.spec_corner_place(
                i as int,
                j as int,
                k as int,
                di,
                dj,
                dk,
            ) as int] by {
                let m = 4 * di + 2 * dj + dk;
                assert(m / 4 == di && (m / 2) % 2 == dj && m % 2 == dk);
            }
        }
        c
    }
}

/// The table after the entries at the places `i` and `j` have changed
/// places.
pub open spec fn exchanged(table: Seq<usize>, i: int, j: int) -> Seq<usize> {
    table.update(i, table[j]).update(j, table[i])
}

/// Whether `draws` holds what a shuffle of a table of `len` entries may
/// draw: for each place but the last, a place up to it.
pub open spec fn in_reach(draws: Seq<usize>, len: nat) -> bool {
    &&& len == 0 ==> draws.len() == 0
    &&& len > 0 ==> draws.len() == len - 1
    &&& forall|i: int| 0 <= i < draws.len() ==> #[trigger] draws[i] <= i
}

/// The table after the places from the last but one down to `from` have had
/// their turn: at its turn, the entry at a place changes places with the
/// entry at the place that `draws` holds for it.
pub open spec fn shuffled_from(table: Seq<usize>, draws: Seq<usize>, from: int) -> Seq<usize>
    decreases draws.len() - from,
{
    if from < 0 || from >= draws.len() {
        table
    } else {
        exchanged(shuffled_from(table, draws, from + 1), from, draws[from] as int)
    }
}

/// The table after a shuffle that has drawn `draws`: every place from the
/// last but one down to the first has had its turn.
pub open spec fn shuffled(table: Seq<usize>, draws: Seq<usize>) -> Seq<usize> {
    shuffled_from(table, draws, 0)
}

/// What the places from `from` on make of a table depends on what was drawn
/// for them alone.
pub proof fn lemma_later_draws(table: Seq<usize>, a: Seq<usize>, b: Seq<usize>, from: int)
    requires
        a.len() == b.len(),
        forall|k: int| from <= k < a.len() ==> a[k] == b[k],
    ensures
        shuffled_from(table, a, from) == shuffled_from(table, b, from),
    decreases a.len() - from,
{
    if 0 <= from < a.len() {
        lemma_later_draws(table, a, b, from + 1);
    }
}

} // verus!
