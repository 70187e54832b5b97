//! The automaton instance: dimensions, double-buffered generations, boundary
//! policy and change tracking.

use vstd::prelude::*;
use vstd::string::StringSliceAdditionalSpecFns;
use crate::cell::{Cell, EdgeBehavior, flip};
use crate::grid::{Grid, ParseError, ParseErrorKind};
use crate::step::{
    at, changed_pairs, fixed_at, fixed_count, lemma_index_bound, lemma_index_decomp,
    neighbor_count, next_cell, next_gen, set_alive, step_at, toggled, wrap_count,
};

verus! {

/// The number of cells supplied to [`Universe::of_cells`] did not equal the
/// declared `width * height`.
#[derive(Clone, Copy, Debug, PartialEq, Eq, Structural)]
pub struct DimensionMismatch {
    /// `width * height`: the cell count the dimensions call for.
    pub expected: u64,
    /// The length of the buffer that was supplied.
    pub actual: u64,
}

/// The deterministic seed pattern of [`Universe::reset_fancy`]: the cell at
/// linear index `i` is alive exactly when `i % 2 == 0` or `i % 7 == 0`.
pub open spec fn fancy(i: int) -> Cell {
    if i % 2 == 0 || i % 7 == 0 {
        Cell::Alive
    } else {
        Cell::Dead
    }
}

/// A mutable Game of Life universe.
///
/// `cells` is the current generation, row-major, indexed as `row * width +
/// col`; `old_cells` is the same-sized scratch buffer that each transition
/// writes into before the two are swapped.  `delta_alive` and `delta_dead`
/// record, as flattened `row, col` pairs, the cells that changed state since
/// the sequences were last cleared.
#[derive(Debug)]
pub struct Universe {
    width: u32,
    height: u32,
    cells: Vec<Cell>,
    old_cells: Vec<Cell>,
    delta_alive: Vec<u32>,
    delta_dead: Vec<u32>,
    edge_behavior: EdgeBehavior,
}

impl Universe {
    /// Both generation buffers hold exactly `width * height` cells.
    pub closed spec fn wf(&self) -> bool {
        &&& self.cells@.len() == self.width as int * self.height as int
        &&& self.old_cells@.len() == self.cells@.len()
    }

    /// What well-formedness gives a caller outright: the visible cell buffer
    /// holds exactly `width * height` cells.
    pub proof fn lemma_wf_cells_len(&self)
        requires
            self.wf(),
        ensures
            self.cells_view().len() == self.spec_width() as int * self.spec_height() as int,
    {
    }

    /// The number of columns.
    pub closed spec fn spec_width(&self) -> u32 {
        self.width
    }

    /// The number of rows.
    pub closed spec fn spec_height(&self) -> u32 {
        self.height
    }

    /// The boundary policy the next transition will use.
    pub closed spec fn spec_edge_behavior(&self) -> EdgeBehavior {
        self.edge_behavior
    }

    /// The current generation.
    pub closed spec fn cells_view(&self) -> Seq<Cell> {
        self.cells@
    }

    /// The flattened `row, col` pairs of cells that turned alive.
    pub closed spec fn delta_alive_view(&self) -> Seq<u32> {
        self.delta_alive@
    }

    /// The flattened `row, col` pairs of cells that turned dead.
    pub closed spec fn delta_dead_view(&self) -> Seq<u32> {
        self.delta_dead@
    }

    /// Adopt `cells` as the initial generation of a `width` x `height`
    /// universe, paired with a same-sized scratch buffer.
    ///
    /// Fails with a [`DimensionMismatch`] when the buffer length does not
    /// equal `width * height`; no universe is built in that case.  A new
    /// universe starts with the [`EdgeBehavior::Wrap`] policy and empty delta
    /// sequences.
    pub fn of_cells(width: u32, height: u32, cells: Vec<Cell>) -> (r: Result<
        Universe,
        DimensionMismatch,
    >)
        ensures
            r is Ok <==> cells@.len() == width as int * height as int,
            r matches Ok(u) ==> {
                &&& u.wf()
                &&& u.spec_width() == width
                &&& u.spec_height() == height
                &&& u.cells_view() == cells@
                &&& u.delta_alive_view() == Seq::<u32>::empty()
                &&& u.delta_dead_view() == Seq::<u32>::empty()
                &&& u.spec_edge_behavior() == EdgeBehavior::Wrap
            },
            r matches Err(e) ==> e == (DimensionMismatch {
                expected: ((width as int) * (height as int)) as u64,
                actual: cells@.len() as u64,
            }),
    {
        proof {
            assert((width as int) * (height as int) < 0x10000000000000000) by (nonlinear_arith)
                requires
                    width <= u32::MAX,
                    height <= u32::MAX,
            ;
        }
        let expected = (width as u64) * (height as u64);
        let actual = cells.len() as u64;
        if actual != expected {
            return Err(DimensionMismatch { expected, actual });
        }
        let old_cells = filled(cells.len(), Cell::Dead);
        Ok(Universe {
            width,
            height,
            cells,
            old_cells,
            delta_alive: Vec::new(),
            delta_dead: Vec::new(),
            edge_behavior: EdgeBehavior::Wrap,
        })
    }

    /// A `width` x `height` universe with every cell dead.
    pub fn new(width: u32, height: u32) -> (u: Universe)
        requires
            width as int * height as int <= usize::MAX as int,
        ensures
            u.wf(),
            u.spec_width() == width,
            u.spec_height() == height,
            u.cells_view() == Seq::new((width as int * height as int) as nat, |i: int| Cell::Dead),
            u.delta_alive_view() == Seq::<u32>::empty(),
            u.delta_dead_view() == Seq::<u32>::empty(),
            u.spec_edge_behavior() == EdgeBehavior::Wrap,
    {
        let n = (width as usize) * (height as usize);
        let cells = filled(n, Cell::Dead);
        let r = Self::of_cells(width, height, cells);
        match r {
            Ok(u) => u,
            Err(_) => {
                proof {
                    assert(false);
                }
                unreached()
            },
        }
    }

    /// The number of columns.
    pub fn width(&self) -> (w: u32)
        ensures
            w == self.spec_width(),
    {
        self.width
    }

    /// The number of rows.
    pub fn height(&self) -> (h: u32)
        ensures
            h == self.spec_height(),
    {
        self.height
    }

    /// Set the width of the universe.
    ///
    /// Resets both buffers to the all-dead state and clears the delta
    /// sequences, whose coordinates would otherwise go stale.
    pub fn set_width(&mut self, width: u32)
        requires
            width as int * old(self).spec_height() as int <= usize::MAX as int,
        ensures
            final(self).wf(),
            final(self).spec_width() == width,
            final(self).spec_height() == old(self).spec_height(),
            final(self).spec_edge_behavior() == old(self).spec_edge_behavior(),
            final(self).cells_view() == Seq::new(
                (width as int * old(self).spec_height() as int) as nat,
                |i: int| Cell::Dead,
            ),
            final(self).delta_alive_view() == Seq::<u32>::empty(),
            final(self).delta_dead_view() == Seq::<u32>::empty(),
    {
        self.width = width;
        self.make_cells();
    }

    /// Set the height of the universe.
    ///
    /// Resets both buffers to the all-dead state and clears the delta
    /// sequences, whose coordinates would otherwise go stale.
    pub fn set_height(&mut self, height: u32)
        requires
            old(self).spec_width() as int * height as int <= usize::MAX as int,
        ensures
            final(self).wf(),
            final(self).spec_width() == old(self).spec_width(),
            final(self).spec_height() == height,
            final(self).spec_edge_behavior() == old(self).spec_edge_behavior(),
            final(self).cells_view() == Seq::new(
                (old(self).spec_width() as int * height as int) as nat,
                |i: int| Cell::Dead,
            ),
            final(self).delta_alive_view() == Seq::<u32>::empty(),
            final(self).delta_dead_view() == Seq::<u32>::empty(),
    {
        self.height = height;
        self.make_cells();
    }

    /// Replace both buffers with all-dead buffers matching the current
    /// dimensions, and drop any recorded deltas.
    fn make_cells(&mut self)
        requires
            old(self).spec_width() as int * old(self).spec_height() as int <= usize::MAX as int,
        ensures
            final(self).wf(),
            final(self).spec_width() == old(self).spec_width(),
            final(self).spec_height() == old(self).spec_height(),
            final(self).spec_edge_behavior() == old(self).spec_edge_behavior(),
            final(self).cells_view() == Seq::new(
                (old(self).spec_width() as int * old(self).spec_height() as int) as nat,
                |i: int| Cell::Dead,
            ),
            final(self).delta_alive_view() == Seq::<u32>::empty(),
            final(self).delta_dead_view() == Seq::<u32>::empty(),
    {
        let n = (self.width as usize) * (self.height as usize);
        self.cells = filled(n, Cell::Dead);
        self.old_cells = filled(n, Cell::Dead);
        self.delta_alive = Vec::new();
        self.delta_dead = Vec::new();
    }

    /// The boundary policy the next transition will use.
    pub fn edge_behavior(&self) -> (e: EdgeBehavior)
        ensures
            e == self.spec_edge_behavior(),
    {
        self.edge_behavior
    }

    /// Choose the boundary policy; it takes effect on the next transition.
    pub fn set_edge_behavior(&mut self, edge_behavior: EdgeBehavior)
        ensures
            final(self).wf() == old(self).wf(),
            final(self).spec_width() == old(self).spec_width(),
            final(self).spec_height() == old(self).spec_height(),
            final(self).spec_edge_behavior() == edge_behavior,
            final(self).cells_view() == old(self).cells_view(),
            final(self).delta_alive_view() == old(self).delta_alive_view(),
            final(self).delta_dead_view() == old(self).delta_dead_view(),
    {
        self.edge_behavior = edge_behavior;
    }

    /// An immutable view of the current cell buffer, row-major, of length
    /// `width * height`; it is valid until the next mutating call.
    pub fn cells(&self) -> (r: &Vec<Cell>)
        ensures
            r@ == self.cells_view(),
    {
        &self.cells
    }

    /// The dead and alive values of the entire universe, as a slice.
    pub fn get_cells(&self) -> (r: &[Cell])
        ensures
            r@ == self.cells_view(),
    {
        self.cells.as_slice()
    }

    /// The cells that turned alive since the deltas were last cleared, as
    /// flattened `row, col` pairs.
    pub fn cells_born(&self) -> (r: &Vec<u32>)
        ensures
            r@ == self.delta_alive_view(),
    {
        &self.delta_alive
    }

    /// The cells that turned dead since the deltas were last cleared, as
    /// flattened `row, col` pairs.
    pub fn cells_died(&self) -> (r: &Vec<u32>)
        ensures
            r@ == self.delta_dead_view(),
    {
        &self.delta_dead
    }

    /// How many cells turned alive: each entry is one `row, col` pair.
    pub fn cells_born_count(&self) -> (n: usize)
        ensures
            n == self.delta_alive_view().len() / 2,
    {
        self.delta_alive.len() / 2
    }

    /// How many cells turned dead: each entry is one `row, col` pair.
    pub fn cells_died_count(&self) -> (n: usize)
        ensures
            n == self.delta_dead_view().len() / 2,
    {
        self.delta_dead.len() / 2
    }

    /// The linear index of `(row, col)` in the cell buffers.
    fn get_index(&self, row: u32, col: u32) -> (i: usize)
        requires
            self.wf(),
            row < self.spec_height(),
            col < self.spec_width(),
        ensures
            i == row as int * self.spec_width() as int + col as int,
            i < self.cells_view().len(),
    {
        proof {
            lemma_index_bound(self.width as int, self.height as int, row as int, col as int);
            vstd::std_specs::vec::axiom_spec_len(&self.cells);
        }
        (row as usize) * (self.width as usize) + (col as usize)
    }

    /// The live summand of the cell at `(row, col)` in the current buffer.
    fn live_at(&self, row: u32, col: u32) -> (n: u8)
        requires
            self.wf(),
            row < self.spec_height(),
            col < self.spec_width(),
        ensures
            n as int == at(self.cells_view(), self.spec_width() as int, row as int, col as int),
            n <= 1,
    {
        let i = self.get_index(row, col);
        self.cells[i].live_count()
    }

    /// Live neighbors of `(row, col)` under the wrapping policy: out-of-range
    /// rows and columns wrap to the opposite edge.
    fn live_neighbor_count_wrapping(&self, row: u32, col: u32) -> (n: u8)
        requires
            self.wf(),
            row < self.spec_height(),
            col < self.spec_width(),
        ensures
            n as int == wrap_count(
                self.cells_view(),
                self.spec_width() as int,
                self.spec_height() as int,
                row as int,
                col as int,
            ),
            n <= 8,
    {
        let north: u32 = if row == 0 {
            self.height - 1
        } else {
            row - 1
        };
        let south: u32 = if row == self.height - 1 {
            0
        } else {
            row + 1
        };
        let west: u32 = if col == 0 {
            self.width - 1
        } else {
            col - 1
        };
        let east: u32 = if col == self.width - 1 {
            0
        } else {
            col + 1
        };
        self.live_at(north, west) + self.live_at(north, col) + self.live_at(north, east)
            + self.live_at(row, west) + self.live_at(row, east) + self.live_at(south, west)
            + self.live_at(south, col) + self.live_at(south, east)
    }

    /// The contribution of one candidate neighbor under a fixed policy.
    fn fixed_live_at(&self, boundary: Cell, row: Option<u32>, col: Option<u32>) -> (n: u8)
        requires
            self.wf(),
            row matches Some(r) ==> r < self.spec_height(),
            col matches Some(c) ==> c < self.spec_width(),
        ensures
            n as int == fixed_at(
                self.cells_view(),
                self.spec_width() as int,
                boundary,
                crate::step::opt_int(row),
                crate::step::opt_int(col),
            ),
            n <= 1,
    {
        match (row, col) {
            (Some(r), Some(c)) => self.live_at(r, c),
            _ => boundary.live_count(),
        }
    }

    /// Live neighbors of `(row, col)` when out-of-range neighbors count as
    /// the fixed `boundary` cell.
    fn live_neighbor_count_fixed(&self, row: u32, col: u32, boundary: Cell) -> (n: u8)
        requires
            self.wf(),
            row < self.spec_height(),
            col < self.spec_width(),
        ensures
            n as int == fixed_count(
                self.cells_view(),
                self.spec_width() as int,
                self.spec_height() as int,
                boundary,
                row as int,
                col as int,
            ),
            n <= 8,
    {
        let north: Option<u32> = if row != 0 {
            Some(row - 1)
        } else {
            None
        };
        let south: Option<u32> = if row != self.height - 1 {
            Some(row + 1)
        } else {
            None
        };
        let west: Option<u32> = if col != 0 {
            Some(col - 1)
        } else {
            None
        };
        let east: Option<u32> = if col != self.width - 1 {
            Some(col + 1)
        } else {
            None
        };
        self.fixed_live_at(boundary, north, west) + self.fixed_live_at(boundary, north, Some(col))
            + self.fixed_live_at(boundary, north, east) + self.fixed_live_at(
            boundary,
            Some(row),
            west,
        ) + self.fixed_live_at(boundary, Some(row), east) + self.fixed_live_at(
            boundary,
            south,
            west,
        ) + self.fixed_live_at(boundary, south, Some(col)) + self.fixed_live_at(
            boundary,
            south,
            east,
        )
    }

    /// Live neighbors of `(row, col)` under the current boundary policy.
    fn live_neighbor_count(&self, row: u32, col: u32) -> (n: u8)
        requires
            self.wf(),
            row < self.spec_height(),
            col < self.spec_width(),
        ensures
            n as int == neighbor_count(
                self.cells_view(),
                self.spec_width() as int,
                self.spec_height() as int,
                self.spec_edge_behavior(),
                row as int,
                col as int,
            ),
            n <= 8,
    {
        match self.edge_behavior {
            EdgeBehavior::Wrap => self.live_neighbor_count_wrapping(row, col),
            EdgeBehavior::Dead => self.live_neighbor_count_fixed(row, col, Cell::Dead),
            EdgeBehavior::Alive => self.live_neighbor_count_fixed(row, col, Cell::Alive),
        }
    }

    /// The next state of a cell with the given live-neighbor count: survival
    /// with 2 or 3, birth with exactly 3, death otherwise.
    fn update_status(cell: Cell, live_neighbors: u8) -> (next: Cell)
        ensures
            next == next_cell(cell, live_neighbors as int),
    {
        match cell {
            Cell::Alive => if live_neighbors < 2 {
                Cell::Dead
            } else if live_neighbors <= 3 {
                Cell::Alive
            } else {
                Cell::Dead
            },
            Cell::Dead => if live_neighbors == 3 {
                Cell::Alive
            } else {
                Cell::Dead
            },
        }
    }

    /// Advance the universe one generation.
    ///
    /// The next state of every cell is computed from the current buffer into
    /// the scratch buffer, then the two buffers are swapped by reference; the
    /// delta sequences are left untouched.
    pub fn tick(&mut self)
        requires
            old(self).wf(),
        ensures
            final(self).wf(),
            final(self).spec_width() == old(self).spec_width(),
            final(self).spec_height() == old(self).spec_height(),
            final(self).spec_edge_behavior() == old(self).spec_edge_behavior(),
            final(self).delta_alive_view() == old(self).delta_alive_view(),
            final(self).delta_dead_view() == old(self).delta_dead_view(),
            final(self).cells_view() == next_gen(
                old(self).cells_view(),
                old(self).spec_width() as int,
                old(self).spec_height() as int,
                old(self).spec_edge_behavior(),
            ),
            final(self).cells_view().len() == old(self).cells_view().len(),
    {
        let ghost u0 = *self;
        let w = self.width;
        let h = self.height;
        let mut row: u32 = 0;
        while row < h
            invariant
                self.wf(),
                self.width == w,
                self.height == h,
                w == u0.spec_width(),
                h == u0.spec_height(),
                self.edge_behavior == u0.spec_edge_behavior(),
                self.cells@ == u0.cells_view(),
                self.delta_alive@ == u0.delta_alive_view(),
                self.delta_dead@ == u0.delta_dead_view(),
                row <= h,
                forall|i: int|
                    0 <= i < row as int * w as int ==> self.old_cells@[i] == step_at(
                        u0.cells_view(),
                        w as int,
                        h as int,
                        u0.spec_edge_behavior(),
                        i,
                    ),
            decreases h - row,
        {
            let mut col: u32 = 0;
            while col < w
                invariant
                    self.wf(),
                    self.width == w,
                    self.height == h,
                    w == u0.spec_width(),
                    h == u0.spec_height(),
                    self.edge_behavior == u0.spec_edge_behavior(),
                    self.cells@ == u0.cells_view(),
                    self.delta_alive@ == u0.delta_alive_view(),
                    self.delta_dead@ == u0.delta_dead_view(),
                    row < h,
                    col <= w,
                    forall|i: int|
                        0 <= i < row as int * w as int + col as int ==> self.old_cells@[i]
                            == step_at(
                            u0.cells_view(),
                            w as int,
                            h as int,
                            u0.spec_edge_behavior(),
                            i,
                        ),
                decreases w - col,
            {
                let idx = self.get_index(row, col);
                let cell = self.cells[idx];
                let live_neighbors = self.live_neighbor_count(row, col);
                let next = Self::update_status(cell, live_neighbors);
                self.old_cells[idx] = next;
                proof {
                    lemma_index_decomp(w as int, row as int, col as int);
                }
                col = col + 1;
            }
            proof {
                assert((row + 1) as int * w as int == row as int * w as int + w as int)
                    by (nonlinear_arith);
            }
            row = row + 1;
        }
        core::mem::swap(&mut self.old_cells, &mut self.cells);
        proof {
            assert(self.cells@ =~= next_gen(
                u0.cells_view(),
                w as int,
                h as int,
                u0.spec_edge_behavior(),
            ));
        }
    }

    /// Take over a parsed grid, rejecting dimensions the engine cannot hold.
    fn of_grid(g: Grid) -> (r: Result<Universe, ParseError>)
        requires
            g.wf(),
        ensures
            r is Ok <==> (g.width <= u32::MAX && g.height <= u32::MAX),
            r matches Ok(u) ==> {
                &&& u.wf()
                &&& u.spec_width() as int == g.width as int
                &&& u.spec_height() as int == g.height as int
                &&& u.cells_view() == g.cells@
                &&& u.delta_alive_view() == Seq::<u32>::empty()
                &&& u.delta_dead_view() == Seq::<u32>::empty()
                &&& u.spec_edge_behavior() == EdgeBehavior::Wrap
            },
            r matches Err(e) ==> e == (ParseError { at: 0, kind: ParseErrorKind::Dimensions }),
    {
        if g.width <= u32::MAX as usize && g.height <= u32::MAX as usize {
            let w32 = g.width as u32;
            let h32 = g.height as u32;
            match Self::of_cells(w32, h32, g.cells) {
                Ok(u) => Ok(u),
                Err(_) => {
                    proof {
                        assert(false);
                    }
                    Err(ParseError { at: 0, kind: ParseErrorKind::Dimensions })
                },
            }
        } else {
            Err(ParseError { at: 0, kind: ParseErrorKind::Dimensions })
        }
    }

    /// Replace this universe with one parsed from the raw bytes of a pattern
    /// file; a failure is reported and leaves the universe unchanged.
    pub fn reset_from_file(&mut self, f: &[u8]) -> (r: Result<(), ParseError>)
        ensures
            r is Ok <==> (vstd::utf8::valid_utf8(f@) && sp_file_fits(
                vstd::utf8::decode_utf8(f@),
            )),
            r is Ok ==> {
                let t = crate::parse::sp_parse_grid(vstd::utf8::decode_utf8(f@)).unwrap();
                &&& final(self).wf()
                &&& final(self).spec_width() as int == t.0
                &&& final(self).spec_height() as int == t.1
                &&& final(self).cells_view() == t.2
                &&& final(self).delta_alive_view() == Seq::<u32>::empty()
                &&& final(self).delta_dead_view() == Seq::<u32>::empty()
                &&& final(self).spec_edge_behavior() == EdgeBehavior::Wrap
            },
            r matches Err(e) ==> *final(self) == *old(self) && e.kind == sp_file_err_kind(f@)
                && e.at as int == sp_file_err_at(f@),
    {
        match Self::of_file(f) {
            Ok(u) => {
                *self = u;
                Ok(())
            },
            Err(e) => Err(e),
        }
    }

    /// Build a universe from the raw bytes of a pattern file: decode them as
    /// UTF-8, parse them in whichever format announces itself, and adopt the
    /// grid.  Every failure is reported as a structured error and builds
    /// nothing.
    pub fn of_file(f: &[u8]) -> (r: Result<Universe, ParseError>)
        ensures
            r is Ok <==> (vstd::utf8::valid_utf8(f@) && sp_file_fits(
                vstd::utf8::decode_utf8(f@),
            )),
            r matches Ok(u) ==> {
                let t = crate::parse::sp_parse_grid(vstd::utf8::decode_utf8(f@)).unwrap();
                &&& u.wf()
                &&& u.spec_width() as int == t.0
                &&& u.spec_height() as int == t.1
                &&& u.cells_view() == t.2
                &&& u.delta_alive_view() == Seq::<u32>::empty()
                &&& u.delta_dead_view() == Seq::<u32>::empty()
                &&& u.spec_edge_behavior() == EdgeBehavior::Wrap
            },
            r matches Err(e) ==> e.kind == sp_file_err_kind(f@) && e.at as int == sp_file_err_at(
                f@,
            ),
    {
        let s = match utf8_to_str(f) {
            Some(s) => s,
            None => {
                return Err(ParseError { at: 0, kind: ParseErrorKind::InvalidUtf8 });
            },
        };
        proof {
            vstd::utf8::encode_utf8_decode_utf8(s@);
        }
        let g = match crate::parse::parse_str(s) {
            Ok(g) => g,
            Err(e) => {
                return Err(e);
            },
        };
        Self::of_grid(g)
    }

    /// A text grid describing the universe: one glyph per cell, `'\u{25fb}'`
    /// for dead and `'\u{25fc}'` for alive, one newline-terminated line per
    /// row.  A pure read: the state is not touched, and two calls without an
    /// intervening mutation return the same text.
    pub fn render(&self) -> (s: String)
        requires
            self.wf(),
        ensures
            s@ == crate::text::text_grid(
                self.cells_view(),
                self.spec_width() as int,
                self.spec_height() as int,
                '\u{25fb}',
                '\u{25fc}',
            ),
    {
        proof {
            reveal_strlit("\u{25fb}");
            reveal_strlit("\u{25fc}");
        }
        crate::text::render_cells(
            &self.cells,
            self.width as usize,
            self.height as usize,
            "\u{25fb}",
            "\u{25fc}",
        )
    }

    /// Record that `(row, col)` just became `cell`, appending the pair to the
    /// delta sequence matching the new state.
    fn buffer_delta(&mut self, row: u32, col: u32, cell: Cell)
        ensures
            final(self).width == old(self).width,
            final(self).height == old(self).height,
            final(self).edge_behavior == old(self).edge_behavior,
            final(self).cells@ == old(self).cells@,
            final(self).old_cells@ == old(self).old_cells@,
            cell == Cell::Alive ==> {
                &&& final(self).delta_alive@ == old(self).delta_alive@ + seq![row, col]
                &&& final(self).delta_dead@ == old(self).delta_dead@
            },
            cell == Cell::Dead ==> {
                &&& final(self).delta_dead@ == old(self).delta_dead@ + seq![row, col]
                &&& final(self).delta_alive@ == old(self).delta_alive@
            },
    {
        match cell {
            Cell::Alive => {
                self.delta_alive.push(row);
                self.delta_alive.push(col);
                proof {
                    assert(self.delta_alive@ =~= old(self).delta_alive@ + seq![row, col]);
                }
            },
            Cell::Dead => {
                self.delta_dead.push(row);
                self.delta_dead.push(col);
                proof {
                    assert(self.delta_dead@ =~= old(self).delta_dead@ + seq![row, col]);
                }
            },
        }
    }

    /// Advance the universe one generation while tracking which cells change.
    ///
    /// Both delta sequences are cleared first; then every cell whose next
    /// state differs from its current one is appended, in row-major scan
    /// order, to `delta_alive` or `delta_dead` according to the direction of
    /// the change.  The generation produced is exactly the one [`Self::tick`]
    /// produces.
    pub fn tick_delta(&mut self)
        requires
            old(self).wf(),
        ensures
            final(self).wf(),
            final(self).spec_width() == old(self).spec_width(),
            final(self).spec_height() == old(self).spec_height(),
            final(self).spec_edge_behavior() == old(self).spec_edge_behavior(),
            final(self).cells_view() == next_gen(
                old(self).cells_view(),
                old(self).spec_width() as int,
                old(self).spec_height() as int,
                old(self).spec_edge_behavior(),
            ),
            final(self).cells_view().len() == old(self).cells_view().len(),
            final(self).delta_alive_view() == changed_pairs(
                old(self).cells_view(),
                old(self).spec_width() as int,
                old(self).spec_height() as int,
                old(self).spec_edge_behavior(),
                Cell::Alive,
                old(self).cells_view().len() as int,
            ),
            final(self).delta_dead_view() == changed_pairs(
                old(self).cells_view(),
                old(self).spec_width() as int,
                old(self).spec_height() as int,
                old(self).spec_edge_behavior(),
                Cell::Dead,
                old(self).cells_view().len() as int,
            ),
    {
        let ghost u0 = *self;
        self.delta_alive.clear();
        self.delta_dead.clear();
        let w = self.width;
        let h = self.height;
        let ghost p = u0.spec_edge_behavior();
        let mut row: u32 = 0;
        while row < h
            invariant
                self.wf(),
                self.width == w,
                self.height == h,
                w == u0.spec_width(),
                h == u0.spec_height(),
                self.edge_behavior == p,
                p == u0.spec_edge_behavior(),
                self.cells@ == u0.cells_view(),
                row <= h,
                forall|i: int|
                    0 <= i < row as int * w as int ==> self.old_cells@[i] == step_at(
                        u0.cells_view(),
                        w as int,
                        h as int,
                        p,
                        i,
                    ),
                self.delta_alive@ == changed_pairs(
                    u0.cells_view(),
                    w as int,
                    h as int,
                    p,
                    Cell::Alive,
                    row as int * w as int,
                ),
                self.delta_dead@ == changed_pairs(
                    u0.cells_view(),
                    w as int,
                    h as int,
                    p,
                    Cell::Dead,
                    row as int * w as int,
                ),
            decreases h - row,
        {
            let mut col: u32 = 0;
            while col < w
                invariant
                    self.wf(),
                    self.width == w,
                    self.height == h,
                    w == u0.spec_width(),
                    h == u0.spec_height(),
                    self.edge_behavior == p,
                    p == u0.spec_edge_behavior(),
                    self.cells@ == u0.cells_view(),
                    row < h,
                    col <= w,
                    forall|i: int|
                        0 <= i < row as int * w as int + col as int ==> self.old_cells@[i]
                            == step_at(u0.cells_view(), w as int, h as int, p, i),
                    self.delta_alive@ == changed_pairs(
                        u0.cells_view(),
                        w as int,
                        h as int,
                        p,
                        Cell::Alive,
                        row as int * w as int + col as int,
                    ),
                    self.delta_dead@ == changed_pairs(
                        u0.cells_view(),
                        w as int,
                        h as int,
                        p,
                        Cell::Dead,
                        row as int * w as int + col as int,
                    ),
                decreases w - col,
            {
                let idx = self.get_index(row, col);
                let cell = self.cells[idx];
                let live_neighbors = self.live_neighbor_count(row, col);
                let next = Self::update_status(cell, live_neighbors);
                proof {
                    lemma_index_decomp(w as int, row as int, col as int);
                }
                if cell != next {
                    self.buffer_delta(row, col, next);
                }
                self.old_cells[idx] = next;
                proof {
                    let i1 = row as int * w as int + col as int + 1;
                    assert(self.delta_alive@ =~= changed_pairs(
                        u0.cells_view(),
                        w as int,
                        h as int,
                        p,
                        Cell::Alive,
                        i1,
                    ));
                    assert(self.delta_dead@ =~= changed_pairs(
                        u0.cells_view(),
                        w as int,
                        h as int,
                        p,
                        Cell::Dead,
                        i1,
                    ));
                }
                col = col + 1;
            }
            proof {
                assert((row + 1) as int * w as int == row as int * w as int + w as int)
                    by (nonlinear_arith);
            }
            row = row + 1;
        }
        proof {
            assert(self.delta_alive@ == changed_pairs(
                u0.cells_view(),
                w as int,
                h as int,
                p,
                Cell::Alive,
                h as int * w as int,
            ));
        }
        core::mem::swap(&mut self.old_cells, &mut self.cells);
        proof {
            assert(self.cells@ =~= next_gen(u0.cells_view(), w as int, h as int, p));
        }
    }

    /// Flip the cell at `(row, column)` immediately, outside any tick, and
    /// append the coordinate to the delta sequence matching its new state;
    /// the deltas are not cleared first.
    pub fn toggle_cell(&mut self, row: u32, column: u32)
        requires
            old(self).wf(),
            row < old(self).spec_height(),
            column < old(self).spec_width(),
        ensures
            final(self).wf(),
            final(self).spec_width() == old(self).spec_width(),
            final(self).spec_height() == old(self).spec_height(),
            final(self).spec_edge_behavior() == old(self).spec_edge_behavior(),
            final(self).cells_view() == toggled(
                old(self).cells_view(),
                row as int * old(self).spec_width() as int + column as int,
            ),
            flip(
                old(self).cells_view()[row as int * old(self).spec_width() as int + column as int],
            ) == Cell::Alive ==> {
                &&& final(self).delta_alive_view() == old(self).delta_alive_view() + seq![
                    row,
                    column,
                ]
                &&& final(self).delta_dead_view() == old(self).delta_dead_view()
            },
            flip(
                old(self).cells_view()[row as int * old(self).spec_width() as int + column as int],
            ) == Cell::Dead ==> {
                &&& final(self).delta_dead_view() == old(self).delta_dead_view() + seq![
                    row,
                    column,
                ]
                &&& final(self).delta_alive_view() == old(self).delta_alive_view()
            },
    {
        let idx = self.get_index(row, column);
        let mut cell = self.cells[idx];
        cell.toggle();
        self.cells[idx] = cell;
        self.buffer_delta(row, column, cell);
    }

    /// Overwrite the current generation with all-dead cells, in place; the
    /// dimensions, the scratch buffer and the deltas are untouched.
    pub fn reset_blank(&mut self)
        requires
            old(self).wf(),
        ensures
            final(self).wf(),
            final(self).spec_width() == old(self).spec_width(),
            final(self).spec_height() == old(self).spec_height(),
            final(self).spec_edge_behavior() == old(self).spec_edge_behavior(),
            final(self).delta_alive_view() == old(self).delta_alive_view(),
            final(self).delta_dead_view() == old(self).delta_dead_view(),
            final(self).cells_view() == Seq::new(
                old(self).cells_view().len(),
                |i: int| Cell::Dead,
            ),
    {
        let n = self.cells.len();
        let mut i: usize = 0;
        while i < n
            invariant
                self.wf(),
                self.width == old(self).width,
                self.height == old(self).height,
                self.edge_behavior == old(self).edge_behavior,
                self.old_cells@ == old(self).old_cells@,
                self.delta_alive@ == old(self).delta_alive@,
                self.delta_dead@ == old(self).delta_dead@,
                n == self.cells@.len(),
                i <= n,
                forall|j: int| 0 <= j < i ==> self.cells@[j] == Cell::Dead,
                forall|j: int| i <= j < n ==> self.cells@[j] == old(self).cells@[j],
            decreases n - i,
        {
            self.cells[i] = Cell::Dead;
            i = i + 1;
        }
        proof {
            assert(self.cells@ =~= Seq::new(old(self).cells@.len(), |j: int| Cell::Dead));
        }
    }

    /// Overwrite the current generation with the deterministic seed pattern:
    /// the cell at linear index `i` is alive exactly when `i % 2 == 0` or
    /// `i % 7 == 0`.
    pub fn reset_fancy(&mut self)
        requires
            old(self).wf(),
        ensures
            final(self).wf(),
            final(self).spec_width() == old(self).spec_width(),
            final(self).spec_height() == old(self).spec_height(),
            final(self).spec_edge_behavior() == old(self).spec_edge_behavior(),
            final(self).delta_alive_view() == old(self).delta_alive_view(),
            final(self).delta_dead_view() == old(self).delta_dead_view(),
            final(self).cells_view() == Seq::new(old(self).cells_view().len(), |i: int| fancy(i)),
    {
        let n = self.cells.len();
        let mut i: usize = 0;
        while i < n
            invariant
                self.wf(),
                self.width == old(self).width,
                self.height == old(self).height,
                self.edge_behavior == old(self).edge_behavior,
                self.old_cells@ == old(self).old_cells@,
                self.delta_alive@ == old(self).delta_alive@,
                self.delta_dead@ == old(self).delta_dead@,
                n == self.cells@.len(),
                i <= n,
                forall|j: int| 0 <= j < i ==> self.cells@[j] == fancy(j),
                forall|j: int| i <= j < n ==> self.cells@[j] == old(self).cells@[j],
            decreases n - i,
        {
            self.cells[i] = if i % 2 == 0 || i % 7 == 0 {
                Cell::Alive
            } else {
                Cell::Dead
            };
            i = i + 1;
        }
        proof {
            assert(self.cells@ =~= Seq::new(old(self).cells@.len(), |j: int| fancy(j)));
        }
    }

    /// Overwrite the current generation from one coin flip per cell: the
    /// cell at linear index `i` is alive exactly when `coin[i]` is true.
    ///
    /// The caller draws the flips from whatever randomness source it has;
    /// the engine itself is deterministic in them.
    pub fn reset_random(&mut self, coin: &[bool])
        requires
            old(self).wf(),
            coin@.len() == old(self).cells_view().len(),
        ensures
            final(self).wf(),
            final(self).spec_width() == old(self).spec_width(),
            final(self).spec_height() == old(self).spec_height(),
            final(self).spec_edge_behavior() == old(self).spec_edge_behavior(),
            final(self).delta_alive_view() == old(self).delta_alive_view(),
            final(self).delta_dead_view() == old(self).delta_dead_view(),
            final(self).cells_view() == Seq::new(
                old(self).cells_view().len(),
                |i: int|
                    if coin@[i] {
                        Cell::Alive
                    } else {
                        Cell::Dead
                    },
            ),
    {
        let n = self.cells.len();
        let mut i: usize = 0;
        while i < n
            invariant
                self.wf(),
                self.width == old(self).width,
                self.height == old(self).height,
                self.edge_behavior == old(self).edge_behavior,
                self.old_cells@ == old(self).old_cells@,
                self.delta_alive@ == old(self).delta_alive@,
                self.delta_dead@ == old(self).delta_dead@,
                n == self.cells@.len(),
                n == coin@.len(),
                i <= n,
                forall|j: int|
                    0 <= j < i ==> self.cells@[j] == (if coin@[j] {
                        Cell::Alive
                    } else {
                        Cell::Dead
                    }),
                forall|j: int| i <= j < n ==> self.cells@[j] == old(self).cells@[j],
            decreases n - i,
        {
            self.cells[i] = if *vstd::slice::slice_index_get(coin, i) {
                Cell::Alive
            } else {
                Cell::Dead
            };
            i = i + 1;
        }
        proof {
            assert(self.cells@ =~= Seq::new(
                old(self).cells@.len(),
                |j: int|
                    if coin@[j] {
                        Cell::Alive
                    } else {
                        Cell::Dead
                    },
            ));
        }
    }

    /// Set each listed `(row, col)` cell alive, in order.
    pub fn set_cells(&mut self, cells: &[(u32, u32)])
        requires
            old(self).wf(),
            forall|k: int|
                0 <= k < cells@.len() ==> (#[trigger] cells@[k]).0 < old(self).spec_height()
                    && cells@[k].1 < old(self).spec_width(),
        ensures
            final(self).wf(),
            final(self).spec_width() == old(self).spec_width(),
            final(self).spec_height() == old(self).spec_height(),
            final(self).spec_edge_behavior() == old(self).spec_edge_behavior(),
            final(self).delta_alive_view() == old(self).delta_alive_view(),
            final(self).delta_dead_view() == old(self).delta_dead_view(),
            final(self).cells_view() == set_alive(
                old(self).cells_view(),
                old(self).spec_width() as int,
                cells@,
                cells@.len() as int,
            ),
    {
        let n = cells.len();
        let mut k: usize = 0;
        while k < n
            invariant
                self.wf(),
                self.width == old(self).width,
                self.height == old(self).height,
                self.edge_behavior == old(self).edge_behavior,
                self.old_cells@ == old(self).old_cells@,
                self.delta_alive@ == old(self).delta_alive@,
                self.delta_dead@ == old(self).delta_dead@,
                n == cells@.len(),
                k <= n,
                forall|j: int|
                    0 <= j < n ==> (#[trigger] cells@[j]).0 < self.spec_height() && cells@[j].1
                        < self.spec_width(),
                self.cells@ == set_alive(
                    old(self).cells_view(),
                    self.width as int,
                    cells@,
                    k as int,
                ),
            decreases n - k,
        {
            let pair = *vstd::slice::slice_index_get(cells, k);
            let idx = self.get_index(pair.0, pair.1);
            self.cells[idx] = Cell::Alive;
            k = k + 1;
        }
    }
}

/// Whether the bytes decode, parse, and describe a grid whose dimensions the
/// engine can hold.
pub open spec fn sp_file_fits(s: Seq<char>) -> bool {
    match crate::parse::sp_parse_grid(s) {
        Some(t) => t.0 <= u32::MAX as int && t.1 <= u32::MAX as int,
        None => false,
    }
}

/// The failure kind [`Universe::of_file`] reports: the bytes are not text,
/// or the text fails to parse, or the parsed grid is too large.
pub open spec fn sp_file_err_kind(f: Seq<u8>) -> ParseErrorKind {
    if !vstd::utf8::valid_utf8(f) {
        ParseErrorKind::InvalidUtf8
    } else {
        let s = vstd::utf8::decode_utf8(f);
        if crate::parse::sp_parse_grid(s) is Some {
            ParseErrorKind::Dimensions
        } else {
            crate::parse::sp_parse_err_kind(s)
        }
    }
}

/// Where [`Universe::of_file`] reports its failure: the start for bytes that
/// are not text or a grid too large to adopt, the parser's position
/// otherwise.
pub open spec fn sp_file_err_at(f: Seq<u8>) -> int {
    if !vstd::utf8::valid_utf8(f) {
        0
    } else {
        let s = vstd::utf8::decode_utf8(f);
        if crate::parse::sp_parse_grid(s) is Some {
            0
        } else {
            crate::parse::sp_parse_err_at(s)
        }
    }
}

/// Relies on str::from_utf8: it accepts exactly the valid UTF-8 byte
/// sequences, and the returned text is those same bytes seen as characters.
#[verifier::external_body]
fn utf8_to_str(f: &[u8]) -> (r: Option<&str>)
    ensures
        r is Some <==> vstd::utf8::valid_utf8(f@),
        r matches Some(s) ==> s.spec_bytes() == f@,
{
    core::str::from_utf8(f).ok()
}

/// A buffer of `n` copies of `c`.
fn filled(n: usize, c: Cell) -> (v: Vec<Cell>)
    ensures
        v@ == Seq::new(n as nat, |i: int| c),
{
    let mut v: Vec<Cell> = Vec::new();
    let mut k: usize = 0;
    while k < n
        invariant
            k <= n,
            v@.len() == k,
            forall|i: int| 0 <= i < k ==> v@[i] == c,
        decreases n - k,
    {
        v.push(c);
        k = k + 1;
    }
    proof {
        assert(v@ =~= Seq::new(n as nat, |i: int| c));
    }
    v
}

} // verus!
