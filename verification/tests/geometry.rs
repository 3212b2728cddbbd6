//! Neighbor geometry on concrete lattices.

use chitin::geometry::square_neighbors;

fn coords_to_idx(x: usize, y: usize, width: usize) -> usize {
    x + y * width
}

fn assert_same_elements(v1: Vec<usize>, v2: Vec<usize>) {
    assert_eq!(v1.len(), v2.len());
    assert!(v2.iter().all(|item| v1.contains(item)));
}

#[test]
fn test_square_interior() {
    let idx = coords_to_idx(1, 5, 3);
    assert_same_elements(
        square_neighbors(idx, 3, 10, true),
        [(0, 5), (2, 5), (1, 4), (1, 6)]
            .map(|(x, y)| coords_to_idx(x, y, 3))
            .to_vec(),
    );
}

#[test]
fn test_square_x_bounds() {
    // Wrap, left side
    let idx = coords_to_idx(0, 5, 3);
    assert_same_elements(
        square_neighbors(idx, 3, 10, true),
        [(2, 5), (1, 5), (0, 4), (0, 6)]
            .map(|(x, y)| coords_to_idx(x, y, 3))
            .to_vec(),
    );

    // Wrap, right side
    assert_same_elements(
        square_neighbors(coords_to_idx(2, 5, 3), 3, 10, true),
        [(1, 5), (0, 5), (2, 4), (2, 6)]
            .map(|(x, y)| coords_to_idx(x, y, 3))
            .to_vec(),
    );

    // No wrap, left side
    assert_same_elements(
        square_neighbors(coords_to_idx(0, 5, 3), 3, 10, false),
        [(1, 5), (0, 4), (0, 6)].map(|(x, y)| coords_to_idx(x, y, 3)).to_vec(),
    );

    // No wrap, right side
    assert_same_elements(
        square_neighbors(coords_to_idx(2, 5, 3), 3, 10, false),
        [(1, 5), (2, 4), (2, 6)].map(|(x, y)| coords_to_idx(x, y, 3)).to_vec(),
    );
}

#[test]
fn test_square_y_bounds() {
    // Wrap, top side
    assert_same_elements(
        square_neighbors(coords_to_idx(1, 0, 3), 3, 10, true),
        [(0, 0), (2, 0), (1, 9), (1, 1)]
            .map(|(x, y)| coords_to_idx(x, y, 3))
            .to_vec(),
    );

    // Wrap, bottom side
    assert_same_elements(
        square_neighbors(coords_to_idx(2, 9, 4), 4, 10, true),
        [(1, 9), (3, 9), (2, 8), (2, 0)]
            .map(|(x, y)| coords_to_idx(x, y, 4))
            .to_vec(),
    );

    // No wrap, top side
    assert_same_elements(
        square_neighbors(coords_to_idx(1, 0, 3), 3, 10, false),
        [(0, 0), (2, 0), (1, 1)].map(|(x, y)| coords_to_idx(x, y, 3)).to_vec(),
    );

    // No wrap, bottom side
    assert_same_elements(
        square_neighbors(coords_to_idx(1, 9, 3), 3, 10, false),
        [(0, 9), (2, 9), (1, 8)].map(|(x, y)| coords_to_idx(x, y, 3)).to_vec(),
    );
}

#[test]
fn test_no_duplicates_on_wide_wrap() {
    // Every cell of a 5x4 torus has exactly 4 distinct in-range neighbors.
    for idx in 0..20 {
        let nbs = square_neighbors(idx, 5, 4, true);
        assert_eq!(nbs.len(), 4);
        for (i, a) in nbs.iter().enumerate() {
            assert!(*a < 20);
            for b in nbs.iter().skip(i + 1) {
                assert_ne!(a, b);
            }
        }
    }
}

#[test]
fn test_wrap_on_single_row_repeats_vertical_neighbor() {
    // On a 1-cell-high torus both vertical steps land back on the cell
    // itself; the repeat is reported as-is.
    let nbs = square_neighbors(0, 4, 1, true);
    assert_eq!(nbs.len(), 4);
    assert_eq!(nbs, vec![3, 1, 0, 0]);
}

#[test]
fn test_corner_without_wrap() {
    let nbs = square_neighbors(0, 3, 3, false);
    assert_same_elements(nbs, vec![1, 3]);
}
