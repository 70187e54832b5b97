//! Text projection of a cell grid: one glyph per cell, one newline-terminated
//! line per row.

use vstd::prelude::*;
use vstd::string::StringExecFns;
use crate::cell::Cell;
use crate::step::{lemma_index_bound, lemma_index_decomp};

verus! {

/// The text projection of a row-major grid: `w` glyphs then a newline for
/// each of the `h` rows.  Position `k` of the text shows the cell at row
/// `k / (w + 1)`, column `k % (w + 1)`, or holds the newline when that
/// column is `w`.
pub open spec fn text_grid(cells: Seq<Cell>, w: int, h: int, dead: char, alive: char) -> Seq<
    char,
> {
    Seq::new(
        ((w + 1) * h) as nat,
        |k: int|
            if k % (w + 1) == w {
                '\n'
            } else if cells[(k / (w + 1)) * w + (k % (w + 1))] == Cell::Alive {
                alive
            } else {
                dead
            },
    )
}

/// Render `cells` as `h` newline-terminated rows of `w` glyphs each, using
/// the two single-character glyph strings supplied.
pub fn render_cells(
    cells: &Vec<Cell>,
    w: usize,
    h: usize,
    dead_glyph: &str,
    alive_glyph: &str,
) -> (s: String)
    requires
        cells@.len() == w as int * h as int,
        dead_glyph@.len() == 1,
        alive_glyph@.len() == 1,
    ensures
        s@ == text_grid(cells@, w as int, h as int, dead_glyph@[0], alive_glyph@[0]),
{
    let ghost d = dead_glyph@[0];
    let ghost a = alive_glyph@[0];
    let ghost tg = text_grid(cells@, w as int, h as int, d, a);
    proof {
        reveal_strlit("\n");
    }
    let mut s = String::new();
    let mut row: usize = 0;
    while row < h
        invariant
            cells@.len() == w as int * h as int,
            dead_glyph@.len() == 1,
            alive_glyph@.len() == 1,
            d == dead_glyph@[0],
            a == alive_glyph@[0],
            tg == text_grid(cells@, w as int, h as int, d, a),
            "\n"@.len() == 1 && "\n"@[0] == '\n',
            row <= h,
            s@.len() == row as int * (w as int + 1),
            forall|j: int| 0 <= j < s@.len() ==> s@[j] == tg[j],
        decreases h - row,
    {
        let mut col: usize = 0;
        while col < w
            invariant
                cells@.len() == w as int * h as int,
                dead_glyph@.len() == 1,
                alive_glyph@.len() == 1,
                d == dead_glyph@[0],
                a == alive_glyph@[0],
                tg == text_grid(cells@, w as int, h as int, d, a),
                row < h,
                col <= w,
                s@.len() == row as int * (w as int + 1) + col as int,
                forall|j: int| 0 <= j < s@.len() ==> s@[j] == tg[j],
            decreases w - col,
        {
            proof {
                lemma_index_bound(w as int, h as int, row as int, col as int);
                lemma_index_bound(w as int + 1, h as int, row as int, col as int);
                lemma_index_decomp(w as int + 1, row as int, col as int);
                vstd::std_specs::vec::axiom_spec_len(cells);
                assert(h as int * w as int == w as int * h as int) by (nonlinear_arith);
                assert((row as int * w as int + col as int) < cells@.len());
            }
            let idx = row * w + col;
            match cells[idx] {
                Cell::Alive => s.append(alive_glyph),
                Cell::Dead => s.append(dead_glyph),
            }
            col = col + 1;
        }
        proof {
            lemma_index_bound(w as int + 1, h as int, row as int, w as int);
            lemma_index_decomp(w as int + 1, row as int, w as int);
        }
        s.append("\n");
        proof {
            assert((row + 1) as int * (w as int + 1) == row as int * (w as int + 1) + (w as int
                + 1)) by (nonlinear_arith);
        }
        row = row + 1;
    }
    proof {
        assert(s@.len() == h as int * (w as int + 1));
        assert(tg.len() == ((w as int + 1) * h as int) as nat);
        assert(s@ =~= tg);
    }
    s
}

} // verus!
