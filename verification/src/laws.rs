//! The laws the engine obeys, each proved from the same model the public
//! contracts are stated over.

use vstd::prelude::*;
use vstd::arithmetic::div_mod::{
    lemma_div_pos_is_pos, lemma_fundamental_div_mod, lemma_fundamental_div_mod_converse,
    lemma_mod_bound, lemma_multiply_divide_lt,
};
use crate::cell::{Cell, EdgeBehavior, flip, live};
use crate::plaintext::{sniff_plaintext, sp_comment, sp_plaintext};
use crate::rle::{sniff_rle, sp_hash_comment, sp_rle};
use crate::step::{changed_pairs, has_pair, lemma_index_bound, next_gen, step_at, toggled};
use crate::text::text_grid;

verus! {

/// The interface law of the plaintext reader: its sniff returns true for
/// every input its parse accepts.  An accepted text opens with a comment
/// mark or a glyph, and the sniff looks for exactly those.
pub proof fn lemma_sniff_covers_plaintext(s: Seq<char>)
    requires
        sp_plaintext(s) is Some,
    ensures
        sniff_plaintext(s),
{
    if sp_comment(s, 0) is Some {
        assert(s[0] == '!');
    }
}

/// The interface law of the RLE reader: its sniff returns true for every
/// input its parse accepts.  An accepted text opens with a comment mark or
/// the `x` of its header, and the sniff looks for exactly those.
pub proof fn lemma_sniff_covers_rle(s: Seq<char>)
    requires
        sp_rle(s) is Some,
    ensures
        sniff_rle(s),
{
    if sp_hash_comment(s, 0) is Some {
        assert(s[0] == '#');
    } else {
        assert(s[0] == 'x');
    }
}

/// The dispatcher's unrecognized-format verdict is honest: when neither
/// sniff accepts the text, neither reader would parse it.
pub proof fn lemma_unrecognized_unparseable(s: Seq<char>)
    requires
        !sniff_plaintext(s),
        !sniff_rle(s),
    ensures
        sp_plaintext(s) is None,
        sp_rle(s) is None,
        crate::parse::sp_parse_grid(s) is None,
{
    if sp_plaintext(s) is Some {
        lemma_sniff_covers_plaintext(s);
    }
    if sp_rle(s) is Some {
        lemma_sniff_covers_rle(s);
    }
}

/// Determinism: the next generation is a function of the current cells, the
/// dimensions and the boundary policy alone, so two universes that agree on
/// those step to identical next generations.
pub proof fn lemma_tick_deterministic(
    cells1: Seq<Cell>,
    cells2: Seq<Cell>,
    w: int,
    h: int,
    p1: EdgeBehavior,
    p2: EdgeBehavior,
)
    requires
        cells1 == cells2,
        p1 == p2,
    ensures
        next_gen(cells1, w, h, p1) == next_gen(cells2, w, h, p2),
{
}

/// Rendering idempotence: the text projection is a function of the cells and
/// dimensions alone, so projecting twice without an intervening mutation
/// yields identical text.
pub proof fn lemma_render_idempotent(
    cells1: Seq<Cell>,
    cells2: Seq<Cell>,
    w: int,
    h: int,
    dead: char,
    alive: char,
)
    requires
        cells1 == cells2,
    ensures
        text_grid(cells1, w, h, dead, alive) == text_grid(cells2, w, h, dead, alive),
{
}

/// Toggle round trip: toggling the same cell twice restores the original
/// cells, and the two toggles move the cell in opposite directions, so they
/// append one entry to each delta sequence, in toggle order.
pub proof fn lemma_toggle_round_trip(cells: Seq<Cell>, i: int)
    requires
        0 <= i < cells.len(),
    ensures
        toggled(toggled(cells, i), i) == cells,
        flip(cells[i]) != cells[i],
        flip(toggled(cells, i)[i]) == cells[i],
{
    assert(toggled(toggled(cells, i), i) =~= cells);
}

/// The recorded coordinate list always pairs a row with a column.
pub proof fn lemma_changed_pairs_even(
    cells: Seq<Cell>,
    w: int,
    h: int,
    p: EdgeBehavior,
    target: Cell,
    n: int,
)
    ensures
        changed_pairs(cells, w, h, p, target, n).len() % 2 == 0,
    decreases n,
{
    if n > 0 {
        lemma_changed_pairs_even(cells, w, h, p, target, n - 1);
    }
}

/// Delta membership: the pair `(r, c)` stands in the coordinate list of cells
/// that changed to `target` among the first `n` exactly when its cell is one
/// of the first `n`, is in range, changes, and changes to `target`.
pub proof fn lemma_changed_pairs_membership(
    cells: Seq<Cell>,
    w: int,
    h: int,
    p: EdgeBehavior,
    target: Cell,
    n: int,
    r: u32,
    c: u32,
)
    requires
        0 < w <= u32::MAX as int,
        0 <= h <= u32::MAX as int,
        0 <= n <= w * h,
    ensures
        has_pair(changed_pairs(cells, w, h, p, target, n), r, c) <==> {
            &&& (c as int) < w
            &&& (r as int * w + c as int) < n
            &&& step_at(cells, w, h, p, r as int * w + c as int) != cells[r as int * w + c as int]
            &&& step_at(cells, w, h, p, r as int * w + c as int) == target
        },
    decreases n,
{
    let i = r as int * w + c as int;
    if n <= 0 {
        assert(!has_pair(changed_pairs(cells, w, h, p, target, n), r, c));
        assert(r as int * w + c as int >= 0) by (nonlinear_arith)
            requires
                w > 0,
                r as int >= 0,
                c as int >= 0,
        ;
    } else {
        lemma_changed_pairs_membership(cells, w, h, p, target, n - 1, r, c);
        lemma_changed_pairs_even(cells, w, h, p, target, n - 1);
        let d1 = changed_pairs(cells, w, h, p, target, n - 1);
        let d = changed_pairs(cells, w, h, p, target, n);
        let i0 = n - 1;
        if step_at(cells, w, h, p, i0) != cells[i0] && step_at(cells, w, h, p, i0) == target {
            let rr = ((i0 / w) as u32);
            let cc = ((i0 % w) as u32);
            lemma_div_pos_is_pos(i0, w);
            lemma_mod_bound(i0, w);
            lemma_multiply_divide_lt(i0, w, h);
            assert(i0 < w * h ==> i0 / w < h) by {
                if i0 < w * h {
                    lemma_multiply_divide_lt(i0, w, h);
                }
            };
            assert(0 <= i0 / w < h);
            assert(0 <= i0 % w < w);
            assert(rr as int == i0 / w);
            assert(cc as int == i0 % w);
            assert(d == d1 + seq![rr, cc]);
            assert(d.len() == d1.len() + 2);
            // the freshly appended pair stands at the end of the list
            assert(d[d1.len() as int] == rr);
            assert(d[d1.len() as int + 1] == cc);
            if has_pair(d1, r, c) {
                let k = choose|k: int|
                    0 <= k && 2 * k + 1 < d1.len() && #[trigger] d1[2 * k] == r && d1[2 * k + 1]
                        == c;
                assert(d[2 * k] == r && d[2 * k + 1] == c);
                assert(has_pair(d, r, c));
            }
            if r == rr && c == cc {
                let k = d1.len() as int / 2;
                assert(2 * k == d1.len());
                assert(d[2 * k] == r && d[2 * k + 1] == c);
                assert(has_pair(d, r, c));
            }
            if has_pair(d, r, c) {
                let k = choose|k: int|
                    0 <= k && 2 * k + 1 < d.len() && #[trigger] d[2 * k] == r && d[2 * k + 1] == c;
                if 2 * k < d1.len() {
                    assert(2 * k + 1 < d1.len());
                    assert(d1[2 * k] == r && d1[2 * k + 1] == c);
                    assert(has_pair(d1, r, c));
                } else {
                    assert(2 * k == d1.len());
                    assert(r == rr && c == cc);
                }
            }
            // a pair names its cell uniquely
            if r == rr && c == cc {
                lemma_fundamental_div_mod(i0, w);
                assert(i == i0);
            }
            if (c as int) < w && i == i0 {
                lemma_fundamental_div_mod_converse(i0, w, r as int, c as int);
                assert(r == rr && c == cc);
            }
        } else {
            assert(d =~= d1);
        }
    }
}

/// Delta correctness: over a whole tracked transition, a coordinate stands in
/// one of the two delta lists exactly when its cell changes state, it stands
/// in `delta_alive` exactly when the cell turns alive and in `delta_dead`
/// exactly when it turns dead, and no coordinate stands in both.
pub proof fn lemma_delta_exact(cells: Seq<Cell>, w: int, h: int, p: EdgeBehavior, r: u32, c: u32)
    requires
        0 < w <= u32::MAX as int,
        0 <= h <= u32::MAX as int,
        (r as int) < h,
        (c as int) < w,
        cells.len() == w * h,
    ensures
        has_pair(changed_pairs(cells, w, h, p, Cell::Alive, w * h), r, c) <==> (next_gen(
            cells,
            w,
            h,
            p,
        )[r as int * w + c as int] != cells[r as int * w + c as int] && next_gen(cells, w, h, p)[r
            as int * w + c as int] == Cell::Alive),
        has_pair(changed_pairs(cells, w, h, p, Cell::Dead, w * h), r, c) <==> (next_gen(
            cells,
            w,
            h,
            p,
        )[r as int * w + c as int] != cells[r as int * w + c as int] && next_gen(cells, w, h, p)[r
            as int * w + c as int] == Cell::Dead),
        (has_pair(changed_pairs(cells, w, h, p, Cell::Alive, w * h), r, c) || has_pair(
            changed_pairs(cells, w, h, p, Cell::Dead, w * h),
            r,
            c,
        )) <==> next_gen(cells, w, h, p)[r as int * w + c as int] != cells[r as int * w + c
            as int],
        !(has_pair(changed_pairs(cells, w, h, p, Cell::Alive, w * h), r, c) && has_pair(
            changed_pairs(cells, w, h, p, Cell::Dead, w * h),
            r,
            c,
        )),
{
    let i = r as int * w + c as int;
    assert(h * w == w * h) by (nonlinear_arith);
    lemma_index_bound(w, h, r as int, c as int);
    lemma_changed_pairs_membership(cells, w, h, p, Cell::Alive, w * h, r, c);
    lemma_changed_pairs_membership(cells, w, h, p, Cell::Dead, w * h, r, c);
    assert(next_gen(cells, w, h, p)[i] == step_at(cells, w, h, p, i));
    assert(step_at(cells, w, h, p, i) is Alive || step_at(cells, w, h, p, i) is Dead);
}

/// Whether every cell on the border of the grid is dead.
pub open spec fn border_dead(cells: Seq<Cell>, w: int, h: int) -> bool {
    forall|r: int, c: int|
        0 <= r < h && 0 <= c < w && (r == 0 || r == h - 1 || c == 0 || c == w - 1)
            ==> #[trigger] cells[r * w + c] == Cell::Dead
}

/// A border cell contributes nothing to a neighbor count.
proof fn lemma_border_cell_dead(cells: Seq<Cell>, w: int, h: int, r: int, c: int)
    requires
        border_dead(cells, w, h),
        0 <= r < h,
        0 <= c < w,
        r == 0 || r == h - 1 || c == 0 || c == w - 1,
    ensures
        live(cells[r * w + c]) == 0,
{
    assert(cells[r * w + c] == Cell::Dead);
}

/// Away from the border the two policies read the same cells; on the border
/// the wrapped neighbors are border cells, hence dead, so they contribute
/// exactly what the fixed-dead boundary does.
proof fn lemma_count_eq_border_dead(cells: Seq<Cell>, w: int, h: int, r: int, c: int)
    requires
        cells.len() == w * h,
        0 < w,
        0 < h,
        0 <= r < h,
        0 <= c < w,
        border_dead(cells, w, h),
    ensures
        crate::step::wrap_count(cells, w, h, r, c) == crate::step::fixed_count(
            cells,
            w,
            h,
            Cell::Dead,
            r,
            c,
        ),
{
    let north = if r == 0 { h - 1 } else { r - 1 };
    let south = if r == h - 1 { 0 } else { r + 1 };
    let west = if c == 0 { w - 1 } else { c - 1 };
    let east = if c == w - 1 { 0 } else { c + 1 };
    if r == 0 {
        lemma_border_cell_dead(cells, w, h, north, west);
        lemma_border_cell_dead(cells, w, h, north, c);
        lemma_border_cell_dead(cells, w, h, north, east);
    }
    if r == h - 1 {
        lemma_border_cell_dead(cells, w, h, south, west);
        lemma_border_cell_dead(cells, w, h, south, c);
        lemma_border_cell_dead(cells, w, h, south, east);
    }
    if c == 0 {
        lemma_border_cell_dead(cells, w, h, north, west);
        lemma_border_cell_dead(cells, w, h, r, west);
        lemma_border_cell_dead(cells, w, h, south, west);
    }
    if c == w - 1 {
        lemma_border_cell_dead(cells, w, h, north, east);
        lemma_border_cell_dead(cells, w, h, r, east);
        lemma_border_cell_dead(cells, w, h, south, east);
    }
}

/// Edge-policy equivalence: when the live population never touches the grid
/// border, boundary policies that keep the outside quiet produce identical
/// next generations.  The fixed-alive policy is left out: it presses live
/// neighbors onto the border from outside and genuinely differs there.
pub proof fn lemma_edge_policy_equivalence(
    cells: Seq<Cell>,
    w: int,
    h: int,
    p1: EdgeBehavior,
    p2: EdgeBehavior,
)
    requires
        cells.len() == w * h,
        0 <= w,
        0 <= h,
        border_dead(cells, w, h),
        p1 != EdgeBehavior::Alive,
        p2 != EdgeBehavior::Alive,
    ensures
        next_gen(cells, w, h, p1) == next_gen(cells, w, h, p2),
{
    assert forall|i: int| 0 <= i < w * h implies step_at(cells, w, h, p1, i) == step_at(
        cells,
        w,
        h,
        p2,
        i,
    ) by {
        assert(0 < w && 0 < h) by (nonlinear_arith)
            requires
                0 <= w,
                0 <= h,
                0 <= i < w * h,
        ;
        lemma_div_pos_is_pos(i, w);
        lemma_mod_bound(i, w);
        lemma_multiply_divide_lt(i, w, h);
        lemma_count_eq_border_dead(cells, w, h, i / w, i % w);
    };
    assert(next_gen(cells, w, h, p1) =~= next_gen(cells, w, h, p2));
}

} // verus!
