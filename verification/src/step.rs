//! The mathematical model of one generation of the automaton.
//!
//! A generation is a `Seq<Cell>` of length `w * h`, row-major, indexed as
//! `row * w + col`.  These functions say what the engine computes: the
//! live-neighbor count of each cell under each boundary policy, the rule
//! table, the whole next generation, and the flattened coordinate list of the
//! cells that change.

use vstd::prelude::*;
use crate::cell::{Cell, EdgeBehavior, live};

verus! {

/// The live summand of the cell at `row`, `col` in a row-major grid of width `w`.
pub open spec fn at(cells: Seq<Cell>, w: int, row: int, col: int) -> int {
    live(cells[row * w + col])
}

/// Live neighbors of `(row, col)` on a torus: an out-of-range row or column
/// wraps to the opposite edge.
///
/// When `w <= 2` or `h <= 2` a physical neighbor can be reached by two of the
/// eight offsets and is then counted twice; that degenerate double count is
/// part of the policy's meaning.
pub open spec fn wrap_count(cells: Seq<Cell>, w: int, h: int, row: int, col: int) -> int {
    let north = if row == 0 { h - 1 } else { row - 1 };
    let south = if row == h - 1 { 0 } else { row + 1 };
    let west = if col == 0 { w - 1 } else { col - 1 };
    let east = if col == w - 1 { 0 } else { col + 1 };
    at(cells, w, north, west) + at(cells, w, north, col) + at(cells, w, north, east)
        + at(cells, w, row, west) + at(cells, w, row, east)
        + at(cells, w, south, west) + at(cells, w, south, col) + at(cells, w, south, east)
}

/// The contribution of one candidate neighbor under a fixed policy: the cell
/// itself when both coordinates are in range, the boundary constant otherwise.
pub open spec fn fixed_at(
    cells: Seq<Cell>,
    w: int,
    boundary: Cell,
    row: Option<int>,
    col: Option<int>,
) -> int {
    match (row, col) {
        (Some(r), Some(c)) => at(cells, w, r, c),
        _ => live(boundary),
    }
}

/// A candidate coordinate as the model sees it.
pub open spec fn opt_int(o: Option<u32>) -> Option<int> {
    match o {
        Some(x) => Some(x as int),
        None => None,
    }
}

/// Live neighbors of `(row, col)` when everything beyond the edge counts as
/// the fixed `boundary` cell.
pub open spec fn fixed_count(
    cells: Seq<Cell>,
    w: int,
    h: int,
    boundary: Cell,
    row: int,
    col: int,
) -> int {
    let north = if row != 0 { Some(row - 1) } else { None::<int> };
    let south = if row != h - 1 { Some(row + 1) } else { None::<int> };
    let west = if col != 0 { Some(col - 1) } else { None::<int> };
    let east = if col != w - 1 { Some(col + 1) } else { None::<int> };
    fixed_at(cells, w, boundary, north, west) + fixed_at(cells, w, boundary, north, Some(col))
        + fixed_at(cells, w, boundary, north, east) + fixed_at(cells, w, boundary, Some(row), west)
        + fixed_at(cells, w, boundary, Some(row), east) + fixed_at(cells, w, boundary, south, west)
        + fixed_at(cells, w, boundary, south, Some(col)) + fixed_at(cells, w, boundary, south, east)
}

/// Live neighbors of `(row, col)` under the given boundary policy.
pub open spec fn neighbor_count(
    cells: Seq<Cell>,
    w: int,
    h: int,
    policy: EdgeBehavior,
    row: int,
    col: int,
) -> int {
    match policy {
        EdgeBehavior::Wrap => wrap_count(cells, w, h, row, col),
        EdgeBehavior::Dead => fixed_count(cells, w, h, Cell::Dead, row, col),
        EdgeBehavior::Alive => fixed_count(cells, w, h, Cell::Alive, row, col),
    }
}

/// The rule table: a live cell survives with 2 or 3 live neighbors, a dead
/// cell is born with exactly 3, every other cell is dead next generation.
pub open spec fn next_cell(c: Cell, neighbors: int) -> Cell {
    match c {
        Cell::Alive => if neighbors == 2 || neighbors == 3 {
            Cell::Alive
        } else {
            Cell::Dead
        },
        Cell::Dead => if neighbors == 3 {
            Cell::Alive
        } else {
            Cell::Dead
        },
    }
}

/// The next state of the cell at linear index `i`.
pub open spec fn step_at(cells: Seq<Cell>, w: int, h: int, policy: EdgeBehavior, i: int) -> Cell {
    next_cell(cells[i], neighbor_count(cells, w, h, policy, i / w, i % w))
}

/// The whole next generation, computed from the old one alone.
pub open spec fn next_gen(cells: Seq<Cell>, w: int, h: int, policy: EdgeBehavior) -> Seq<Cell> {
    Seq::new((w * h) as nat, |i: int| step_at(cells, w, h, policy, i))
}

/// The flattened `row, col` pairs, in row-major scan order, of the cells among
/// the first `n` whose next state differs from their current one and equals
/// `target`.
pub open spec fn changed_pairs(
    cells: Seq<Cell>,
    w: int,
    h: int,
    policy: EdgeBehavior,
    target: Cell,
    n: int,
) -> Seq<u32>
    decreases n,
{
    if n <= 0 {
        Seq::empty()
    } else {
        changed_pairs(cells, w, h, policy, target, n - 1)
            + if step_at(cells, w, h, policy, n - 1) != cells[n - 1]
                && step_at(cells, w, h, policy, n - 1) == target {
                seq![(((n - 1) / w) as u32), (((n - 1) % w) as u32)]
            } else {
                Seq::empty()
            }
    }
}

/// Whether the flattened coordinate list `d` holds the pair `(row, col)`.
pub open spec fn has_pair(d: Seq<u32>, row: u32, col: u32) -> bool {
    exists|k: int| 0 <= k && 2 * k + 1 < d.len() && #[trigger] d[2 * k] == row && d[2 * k + 1]
        == col
}

/// `cells` after setting the first `n` listed `(row, col)` coordinates
/// alive, in order, in a row-major grid of width `w`.
pub open spec fn set_alive(cells: Seq<Cell>, w: int, pts: Seq<(u32, u32)>, n: int) -> Seq<Cell>
    decreases n,
{
    if n <= 0 {
        cells
    } else {
        set_alive(cells, w, pts, n - 1).update(
            pts[n - 1].0 as int * w + pts[n - 1].1 as int,
            Cell::Alive,
        )
    }
}

/// `cells` with the cell at linear index `i` flipped.
pub open spec fn toggled(cells: Seq<Cell>, i: int) -> Seq<Cell> {
    cells.update(i, crate::cell::flip(cells[i]))
}

/// A cell at `row < h`, `col < w` has a linear index below `h * w`.
pub proof fn lemma_index_bound(w: int, h: int, row: int, col: int)
    requires
        0 <= row < h,
        0 <= col < w,
    ensures
        0 <= row * w + col < h * w,
{
    assert(0 <= row * w + col < h * w) by (nonlinear_arith)
        requires
            0 <= row < h,
            0 <= col < w,
    ;
}

/// Dividing a linear index by the width recovers the row and the column.
pub proof fn lemma_index_decomp(w: int, row: int, col: int)
    requires
        0 < w,
        0 <= row,
        0 <= col < w,
    ensures
        (row * w + col) / w == row,
        (row * w + col) % w == col,
{
    vstd::arithmetic::div_mod::lemma_fundamental_div_mod_converse(row * w + col, w, row, col);
}

} // verus!
