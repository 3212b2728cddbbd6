//! Neighbor geometry: maps a cell index on a row-major `width` x `height`
//! lattice to the indices of its 4-connected neighbors, with optional
//! toroidal wraparound on both axes.

use vstd::prelude::*;
use vstd::arithmetic::div_mod::{
    lemma_fundamental_div_mod, lemma_fundamental_div_mod_converse,
    lemma_mod_division_less_than_divisor, lemma_div_pos_is_pos,
};
use vstd::arithmetic::mul::lemma_mul_inequality;

verus! {

/// The column coordinate one step toward lower columns, wrapping at the edge.
pub open spec fn wrap_dec(v: int, size: int) -> int {
    if v <= 0 {
        size - 1
    } else {
        v - 1
    }
}

/// The column coordinate one step toward higher columns, wrapping at the edge.
pub open spec fn wrap_inc(v: int, size: int) -> int {
    if v >= size - 1 {
        0
    } else {
        v + 1
    }
}

/// The neighbor indices of `idx`, in scan order: left, right, up, down.
/// Without wrap, directions that would leave the grid are omitted.
pub open spec fn neighbors_spec(idx: int, width: int, height: int, wrap: bool) -> Seq<int> {
    let x = idx % width;
    let y = idx / width;
    if wrap {
        seq![
            wrap_dec(x, width) + y * width,
            wrap_inc(x, width) + y * width,
            x + wrap_dec(y, height) * width,
            x + wrap_inc(y, height) * width,
        ]
    } else {
        (if x > 0 {
            seq![x - 1 + y * width]
        } else {
            Seq::<int>::empty()
        }) + (if x < width - 1 {
            seq![x + 1 + y * width]
        } else {
            Seq::<int>::empty()
        }) + (if y > 0 {
            seq![x + (y - 1) * width]
        } else {
            Seq::<int>::empty()
        }) + (if y < height - 1 {
            seq![x + (y + 1) * width]
        } else {
            Seq::<int>::empty()
        })
    }
}

/// A cell index decomposes into a column below `width` and a row below
/// `height`.
proof fn lemma_grid_coords(idx: int, width: int, height: int)
    requires
        1 <= width,
        1 <= height,
        0 <= idx < width * height,
    ensures
        0 <= idx % width < width,
        0 <= idx / width < height,
        idx == width * (idx / width) + idx % width,
{
    lemma_fundamental_div_mod(idx, width);
    lemma_mod_division_less_than_divisor(idx, width);
    lemma_div_pos_is_pos(idx, width);
    if idx / width >= height {
        lemma_mul_inequality(height, idx / width, width);
        assert(width * (idx / width) == (idx / width) * width) by (nonlinear_arith);
        assert(height * width == width * height) by (nonlinear_arith);
        assert(false);
    }
}

/// A lattice position `x + y * width` with `x` below `width` and `y` below
/// `height` is a valid cell index.
proof fn lemma_coords_to_idx(x: int, y: int, width: int, height: int)
    requires
        1 <= width,
        1 <= height,
        0 <= x < width,
        0 <= y < height,
    ensures
        0 <= x + y * width < width * height,
        (x + y * width) % width == x,
        (x + y * width) / width == y,
{
    lemma_mul_inequality(y, height - 1, width);
    assert((height - 1) * width == width * height - width) by (nonlinear_arith);
    assert(y * width == width * y) by (nonlinear_arith);
    lemma_fundamental_div_mod_converse(x + y * width, width, y, x);
    if y * width < 0 {
        lemma_mul_inequality(0, y, width);
    }
}

/// Every entry of the neighbor list is a valid cell index.
pub proof fn lemma_neighbors_in_range(idx: int, width: int, height: int, wrap: bool)
    requires
        1 <= width,
        1 <= height,
        0 <= idx < width * height,
    ensures
        forall|k: int|
            0 <= k < neighbors_spec(idx, width, height, wrap).len()
                ==> 0 <= #[trigger] neighbors_spec(idx, width, height, wrap)[k]
                    < width * height,
{
    lemma_grid_coords(idx, width, height);
    let x = idx % width;
    let y = idx / width;
    lemma_coords_to_idx(wrap_dec(x, width), y, width, height);
    lemma_coords_to_idx(wrap_inc(x, width), y, width, height);
    lemma_coords_to_idx(x, wrap_dec(y, height), width, height);
    lemma_coords_to_idx(x, wrap_inc(y, height), width, height);
    if x > 0 {
        lemma_coords_to_idx(x - 1, y, width, height);
    }
    if x < width - 1 {
        lemma_coords_to_idx(x + 1, y, width, height);
    }
    if y > 0 {
        lemma_coords_to_idx(x, y - 1, width, height);
    }
    if y < height - 1 {
        lemma_coords_to_idx(x, y + 1, width, height);
    }
}

/// The neighbor list never repeats an index, as long as a wrapped axis is at
/// least 3 cells long (on shorter wrapped grids both steps along an axis land
/// on the same cell, and that is reported to the caller as a repeat).
pub proof fn lemma_neighbors_distinct(idx: int, width: int, height: int, wrap: bool)
    requires
        1 <= width,
        1 <= height,
        0 <= idx < width * height,
        wrap ==> width >= 3 && height >= 3,
    ensures
        forall|j: int, k: int|
            0 <= j < k < neighbors_spec(idx, width, height, wrap).len()
                ==> #[trigger] neighbors_spec(idx, width, height, wrap)[j]
                    != #[trigger] neighbors_spec(idx, width, height, wrap)[k],
{
    lemma_grid_coords(idx, width, height);
    let x = idx % width;
    let y = idx / width;
    // Each candidate coordinate pair maps to a distinct index because the
    // decomposition of an index into column and row is unique.
    assert forall|a1: int, b1: int, a2: int, b2: int|
        0 <= a1 < width && 0 <= b1 < height && 0 <= a2 < width && 0 <= b2 < height
            && (a1 != a2 || b1 != b2)
        implies #[trigger] (a1 + b1 * width) != #[trigger] (a2 + b2 * width) by {
        lemma_coords_to_idx(a1, b1, width, height);
        lemma_coords_to_idx(a2, b2, width, height);
    }
}

/// Exactly 4 neighbors when wrap is on; at most 4, and at least 2 on a grid
/// that is at least 2 cells long on each axis, when wrap is off.
pub proof fn lemma_neighbors_count(idx: int, width: int, height: int, wrap: bool)
    requires
        1 <= width,
        1 <= height,
        0 <= idx < width * height,
    ensures
        wrap ==> neighbors_spec(idx, width, height, wrap).len() == 4,
        neighbors_spec(idx, width, height, wrap).len() <= 4,
        !wrap && width >= 2 && height >= 2
            ==> neighbors_spec(idx, width, height, wrap).len() >= 2,
{
    lemma_grid_coords(idx, width, height);
}

/// The 4-connected neighbors of cell `idx`, in scan order: left, right, up,
/// down.  With `wrap` the grid is a torus and every cell has exactly 4
/// neighbors; without it, directions that would leave the grid are omitted.
#[verifier::rlimit(50)]
pub fn square_neighbors(idx: usize, width: usize, height: usize, wrap: bool) -> (neighbors: Vec<
    usize,
>)
    requires
        1 <= width,
        1 <= height,
        idx < width * height,
        width * height <= usize::MAX,
    ensures
        neighbors@.map_values(|n: usize| n as int)
            == neighbors_spec(idx as int, width as int, height as int, wrap),
        forall|k: int|
            0 <= k < neighbors@.len() ==> (#[trigger] neighbors@[k]) < width * height,
{
    proof {
        lemma_grid_coords(idx as int, width as int, height as int);
        lemma_neighbors_in_range(idx as int, width as int, height as int, wrap);
    }
    let x: usize = idx % width;
    let y: usize = idx / width;
    let mut neighbors: Vec<usize> = Vec::new();
    let ghost spec_list = neighbors_spec(idx as int, width as int, height as int, wrap);
    if wrap {
        let xl: usize = if x == 0 {
            width - 1
        } else {
            x - 1
        };
        let xr: usize = if x == width - 1 {
            0
        } else {
            x + 1
        };
        let yu: usize = if y == 0 {
            height - 1
        } else {
            y - 1
        };
        let yd: usize = if y == height - 1 {
            0
        } else {
            y + 1
        };
        proof {
            lemma_coords_to_idx(xl as int, y as int, width as int, height as int);
            lemma_coords_to_idx(xr as int, y as int, width as int, height as int);
            lemma_coords_to_idx(x as int, yu as int, width as int, height as int);
            lemma_coords_to_idx(x as int, yd as int, width as int, height as int);
        }
        neighbors.push(xl + y * width);
        neighbors.push(xr + y * width);
        neighbors.push(x + yu * width);
        neighbors.push(x + yd * width);
    } else {
        if x > 0 {
            proof {
                lemma_coords_to_idx(x - 1, y as int, width as int, height as int);
            }
            neighbors.push(x - 1 + y * width);
        }
        if x < width - 1 {
            proof {
                lemma_coords_to_idx(x + 1, y as int, width as int, height as int);
            }
            neighbors.push(x + 1 + y * width);
        }
        if y > 0 {
            proof {
                lemma_coords_to_idx(x as int, y - 1, width as int, height as int);
            }
            neighbors.push(x + (y - 1) * width);
        }
        if y < height - 1 {
            proof {
                lemma_coords_to_idx(x as int, y + 1, width as int, height as int);
            }
            neighbors.push(x + (y + 1) * width);
        }
    }
    proof {
        assert(neighbors@.map_values(|n: usize| n as int) =~= spec_list);
    }
    neighbors
}

} // verus!
