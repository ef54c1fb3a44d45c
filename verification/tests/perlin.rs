use pathtracer::math::Point;
use pathtracer::perlin::{exchange, wrap, Perlin, DEFAULT_TURBULENCE_DEPTH, POINT_COUNT};

fn gradients() -> Vec<Point> {
    (0..POINT_COUNT as i64).map(|i| Point::new(i, 1000 + i, 2000 + i)).collect()
}

#[test]
fn sizes_of_the_noise_tables() {
    assert_eq!(POINT_COUNT, 256);
    assert_eq!(DEFAULT_TURBULENCE_DEPTH, 7);
}

#[test]
fn generated_table_is_a_permutation() {
    for _ in 0..10 {
        let mut p = Perlin::generate_perm();
        assert_eq!(p.len(), POINT_COUNT);
        p.sort();
        assert_eq!(p, (0..POINT_COUNT).collect::<Vec<usize>>());
    }
}

#[test]
fn shuffle_keeps_the_entries() {
    let table: Vec<usize> = vec![5, 5, 9, 1, 0, 42, 7, 7, 7];
    for _ in 0..10 {
        let mut p = table.clone();
        Perlin::permute(&mut p);
        let mut sorted = p.clone();
        sorted.sort();
        assert_eq!(sorted, vec![0, 1, 5, 5, 7, 7, 7, 9, 42]);
    }
}

#[test]
fn shuffle_leaves_the_last_entry_in_place() {
    for _ in 0..20 {
        let mut p: Vec<usize> = vec![3, 1, 4, 1, 5, 9];
        Perlin::permute(&mut p);
        assert_eq!(p[5], 9);
    }
}

#[test]
fn shuffle_of_short_tables_changes_nothing() {
    let mut empty: Vec<usize> = vec![];
    Perlin::permute(&mut empty);
    assert!(empty.is_empty());
    let mut one: Vec<usize> = vec![8];
    Perlin::permute(&mut one);
    assert_eq!(one, vec![8]);
    // The only place that is drawn for is the first, and from itself alone.
    for _ in 0..20 {
        let mut two: Vec<usize> = vec![7, 9];
        Perlin::permute(&mut two);
        assert_eq!(two, vec![7, 9]);
    }
}

#[test]
fn shuffle_does_shuffle() {
    let sorted: Vec<usize> = (0..POINT_COUNT).collect();
    let moved = (0..5).any(|_| Perlin::generate_perm() != sorted);
    assert!(moved);
}

#[test]
fn exchange_swaps_two_entries() {
    let mut p: Vec<usize> = vec![10, 20, 30];
    exchange(&mut p, 0, 2);
    assert_eq!(p, vec![30, 20, 10]);
    exchange(&mut p, 1, 1);
    assert_eq!(p, vec![30, 20, 10]);
}

#[test]
fn wrap_keeps_the_low_eight_bits() {
    assert_eq!(wrap(0, 0), 0);
    assert_eq!(wrap(0, 1), 1);
    assert_eq!(wrap(255, 0), 255);
    assert_eq!(wrap(255, 1), 0);
    assert_eq!(wrap(256, 0), 0);
    assert_eq!(wrap(1000, 1), 1001 % 256);
    assert_eq!(wrap(-1, 0), 255);
    assert_eq!(wrap(-1, 1), 0);
    assert_eq!(wrap(-256, 0), 0);
    assert_eq!(wrap(-257, 0), 255);
    assert_eq!(wrap(i32::MAX, 0), 255);
    assert_eq!(wrap(i32::MAX, 1), 0);
    assert_eq!(wrap(i32::MIN, 0), 0);
    for c in [-70000i32, -513, -3, 12, 511, 1 << 20] {
        assert_eq!(wrap(c, 0), (c & 255) as usize);
        assert_eq!(wrap(c, 1), ((c + 1) & 255) as usize);
    }
}

#[test]
fn noise_field_needs_all_its_gradients() {
    assert!(Perlin::new(vec![]).is_none());
    assert!(Perlin::new(vec![Point::new(0, 0, 0); 255]).is_none());
    assert!(Perlin::new(vec![Point::new(0, 0, 0); 257]).is_none());
    assert!(Perlin::new(gradients()).is_some());
}

#[test]
fn corners_name_gradients_of_the_table() {
    let perlin = Perlin::new(gradients()).unwrap();
    for (i, j, k) in [(0, 0, 0), (-1, -1, -1), (255, 255, 255), (i32::MAX, i32::MIN, 77), (-300, 4000, 12)] {
        let corners = perlin.noise(i, j, k);
        assert_eq!(corners.len(), 8);
        for di in 0..2u8 {
            for dj in 0..2u8 {
                for dk in 0..2u8 {
                    let place = perlin.corner_place(i, j, k, di, dj, dk);
                    assert!(place < POINT_COUNT);
                    let at = (4 * di + 2 * dj + dk) as usize;
                    assert_eq!(corners[at], gradients()[place]);
                }
            }
        }
    }
}

#[test]
fn corners_repeat_every_256_cells() {
    let perlin = Perlin::new(gradients()).unwrap();
    assert_eq!(perlin.noise(3, -9, 40), perlin.noise(3 + 256, -9 - 512, 40 + 1024));
    // A neighbouring cell shares the corners of the common face.
    assert_eq!(perlin.corner_place(3, -9, 40, 1, 0, 1), perlin.corner_place(4, -9, 40, 0, 0, 1));
}

#[test]
fn shuffle_of_three_entries_has_two_outcomes() {
    // The place in the middle draws from itself and the first; the first from itself alone.
    let mut seen = Vec::new();
    for _ in 0..200 {
        let mut p: Vec<usize> = vec![1, 2, 3];
        Perlin::permute(&mut p);
        assert!(p == vec![1, 2, 3] || p == vec![2, 1, 3]);
        if !seen.contains(&p) {
            seen.push(p);
        }
    }
    assert_eq!(seen.len(), 2);
}
