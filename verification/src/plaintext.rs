//! The plaintext pattern format: rows of `.` (dead) and `O` (alive) glyphs,
//! optionally preceded by comment lines that begin with `!`.
//!
//! Rows may be empty and may be shorter than the widest row; the grid adopts
//! the widest row as its width and pads every shorter row with dead cells.
//! A line ending is a bare newline or a carriage return followed by one.
//!
//! The grammar is stated as spec functions over the character sequence, and
//! every reader is proved to return exactly what the grammar says.

use vstd::prelude::*;
use vstd::string::StrSliceExecFns;
use crate::cell::Cell;
use crate::grid::{Grid, ParseError, ParseErrorKind};

verus! {

/// A line ending at `i`: `\n`, or `\r\n`, with the position after it.
pub open spec fn sp_eol(s: Seq<char>, i: int) -> Option<int> {
    if 0 <= i < s.len() && s[i] == '\n' {
        Some(i + 1)
    } else if 0 <= i && i + 1 < s.len() && s[i] == '\r' && s[i + 1] == '\n' {
        Some(i + 2)
    } else {
        None
    }
}

/// The position of the first line-ending character at or after `i`, or the
/// end of the input.
pub open spec fn sp_skip_line(s: Seq<char>, i: int) -> int
    decreases s.len() - i,
{
    if 0 <= i < s.len() && s[i] != '\n' && s[i] != '\r' {
        sp_skip_line(s, i + 1)
    } else {
        i
    }
}

/// A comment at `i`: a `!` and the rest of its line, with the position of
/// the line ending (or end of input) that stops it.
pub open spec fn sp_comment(s: Seq<char>, i: int) -> Option<int> {
    if 0 <= i < s.len() && s[i] == '!' {
        Some(sp_skip_line(s, i + 1))
    } else {
        None
    }
}

/// After one comment ending at `i`: as many further `line-ending comment`
/// pairs as will parse, with the position after the last comment.
pub open spec fn sp_comments_more(s: Seq<char>, i: int) -> int
    decreases s.len() - i,
{
    match sp_eol(s, i) {
        Some(k) => match sp_comment(s, k) {
            Some(m) => if i < m && m <= s.len() {
                sp_comments_more(s, m)
            } else {
                i
            },
            None => i,
        },
        None => i,
    }
}

/// The comment block starting at `i`: one comment and then as many
/// `line-ending comment` pairs as will parse; `i` itself when no comment
/// starts there.
pub open spec fn sp_comments(s: Seq<char>, i: int) -> int {
    match sp_comment(s, i) {
        Some(j) => sp_comments_more(s, j),
        None => i,
    }
}

/// Whether `ch` draws one cell.
pub open spec fn is_glyph(ch: char) -> bool {
    ch == '.' || ch == 'O'
}

/// The end of the glyph run starting at `i`.
pub open spec fn sp_run_end(s: Seq<char>, i: int) -> int
    decreases s.len() - i,
{
    if 0 <= i < s.len() && is_glyph(s[i]) {
        sp_run_end(s, i + 1)
    } else {
        i
    }
}

/// A glyph run neither moves backwards nor leaves the input.
proof fn lemma_run_end_bounds(s: Seq<char>, i: int)
    requires
        0 <= i <= s.len(),
    ensures
        i <= sp_run_end(s, i) <= s.len(),
    decreases s.len() - i,
{
    if 0 <= i < s.len() && is_glyph(s[i]) {
        lemma_run_end_bounds(s, i + 1);
    }
}

/// The cells drawn by the glyphs of `s[i..j]`.
pub open spec fn sp_row(s: Seq<char>, i: int, j: int) -> Seq<Cell> {
    Seq::new(
        if j >= i {
            (j - i) as nat
        } else {
            0
        },
        |k: int|
            if s[i + k] == 'O' {
                Cell::Alive
            } else {
                Cell::Dead
            },
    )
}

/// One row item at `i`: a nonempty glyph run, or the empty row that stands
/// before a line ending; the position after it and its cells.
pub open spec fn sp_item(s: Seq<char>, i: int) -> Option<(int, Seq<Cell>)> {
    if 0 <= i < s.len() && is_glyph(s[i]) {
        Some((sp_run_end(s, i), sp_row(s, i, sp_run_end(s, i))))
    } else if sp_eol(s, i) is Some {
        Some((i, Seq::empty()))
    } else {
        None
    }
}

/// After a first row ending at `i` with `acc` rows gathered: as many further
/// `line-ending row` pairs as will parse.
pub open spec fn sp_rows_more(s: Seq<char>, i: int, acc: Seq<Seq<Cell>>) -> (int, Seq<Seq<Cell>>)
    decreases s.len() - i,
{
    match sp_eol(s, i) {
        Some(k) => match sp_item(s, k) {
            Some((j, row)) => if i < j && j <= s.len() {
                sp_rows_more(s, j, acc.push(row))
            } else {
                (i, acc)
            },
            None => (i, acc),
        },
        None => (i, acc),
    }
}

/// The list of rows starting at `i`: possibly none at all.
pub open spec fn sp_rows(s: Seq<char>, i: int) -> (int, Seq<Seq<Cell>>) {
    match sp_item(s, i) {
        Some((j, row)) => sp_rows_more(s, j, seq![row]),
        None => (i, Seq::empty()),
    }
}

/// The rows starting at `k`, an optional final line ending, and nothing else
/// until the end of the input.
pub open spec fn sp_body(s: Seq<char>, k: int) -> Option<Seq<Seq<Cell>>> {
    let pr = sp_rows(s, k);
    let q = match sp_eol(s, pr.0) {
        Some(e) => e,
        None => pr.0,
    };
    if q == s.len() {
        Some(pr.1)
    } else {
        None
    }
}

/// The whole plaintext grammar: an optional comment block closed by a line
/// ending, then the rows.  Without a comment block the text must open with a
/// glyph, so that every accepted text announces itself to [`sniff_plaintext`].
/// `None` when the text is not plaintext.
pub open spec fn sp_plaintext(s: Seq<char>) -> Option<Seq<Seq<Cell>>> {
    match sp_comment(s, 0) {
        Some(_) => {
            let c = sp_comments(s, 0);
            match sp_eol(s, c) {
                Some(k) => sp_body(s, k),
                None => None,
            }
        },
        None => if 0 < s.len() && is_glyph(s[0]) {
            sp_body(s, 0)
        } else {
            None
        },
    }
}

/// Where a failed plaintext parse stops making sense: the unclosed comment
/// block, the position where the rows end short of the input, or the very
/// start when nothing announces the format.  Meaningful only when
/// [`sp_plaintext`] is `None`.
pub open spec fn sp_plaintext_err_at(s: Seq<char>) -> int {
    match sp_comment(s, 0) {
        Some(_) => {
            let c = sp_comments(s, 0);
            match sp_eol(s, c) {
                Some(k) => sp_body_err_at(s, k),
                None => c,
            }
        },
        None => if 0 < s.len() && is_glyph(s[0]) {
            sp_body_err_at(s, 0)
        } else {
            0
        },
    }
}

/// Where the row list starting at `k` ends, after an optional final line
/// ending: the position a failed parse reports.
pub open spec fn sp_body_err_at(s: Seq<char>, k: int) -> int {
    let pr = sp_rows(s, k);
    match sp_eol(s, pr.0) {
        Some(e) => e,
        None => pr.0,
    }
}

/// The width of the widest row.
pub open spec fn sp_max_width(rows: Seq<Seq<Cell>>) -> int
    decreases rows.len(),
{
    if rows.len() == 0 {
        0
    } else {
        let m = sp_max_width(rows.drop_last());
        if rows.last().len() > m {
            rows.last().len() as int
        } else {
            m
        }
    }
}

/// The rectangular, row-major cell buffer of the parsed rows: each row
/// right-padded with dead cells to the width `w`.
pub open spec fn sp_grid_cells(rows: Seq<Seq<Cell>>, w: int) -> Seq<Cell> {
    Seq::new(
        (rows.len() * w) as nat,
        |k: int|
            if k % w < rows[k / w].len() {
                rows[k / w][k % w]
            } else {
                Cell::Dead
            },
    )
}

/// The rows of a list of row buffers, as the grammar speaks of them.
pub open spec fn rows_view(v: Seq<Vec<Cell>>) -> Seq<Seq<Cell>> {
    Seq::new(v.len(), |k: int| v[k]@)
}

/// Whether plaintext parsing succeeds outright: the grammar accepts the text
/// and the resulting rectangle fits in memory.
pub open spec fn sp_plaintext_ok(s: Seq<char>) -> bool {
    match sp_plaintext(s) {
        Some(rows) => rows.len() * sp_max_width(rows) <= usize::MAX as int,
        None => false,
    }
}

/// Whether the text's first character announces the plaintext format.
pub open spec fn sniff_plaintext(s: Seq<char>) -> bool {
    s.len() > 0 && (s[0] == '!' || s[0] == '.' || s[0] == 'O')
}

/// A line ending at `i`, as [`sp_eol`] describes it.
pub(crate) fn eol_at(s: &str, n: usize, i: usize) -> (r: Option<usize>)
    requires
        n as int == s@.len(),
        i <= n,
    ensures
        r is Some <==> sp_eol(s@, i as int) is Some,
        r matches Some(j) ==> sp_eol(s@, i as int) == Some(j as int) && i < j <= n,
{
    if i < n {
        let ch = s.get_char(i);
        if ch == '\n' {
            return Some(i + 1);
        }
        if ch == '\r' && i + 1 < n {
            if s.get_char(i + 1) == '\n' {
                return Some(i + 2);
            }
        }
    }
    None
}

/// The rest of the current line, as [`sp_skip_line`] describes it.
pub(crate) fn skip_line(s: &str, n: usize, i: usize) -> (j: usize)
    requires
        n as int == s@.len(),
        i <= n,
    ensures
        j as int == sp_skip_line(s@, i as int),
        i <= j <= n,
    decreases n - i,
{
    if i < n {
        let ch = s.get_char(i);
        if ch != '\n' && ch != '\r' {
            return skip_line(s, n, i + 1);
        }
    }
    i
}

/// One comment, as [`sp_comment`] describes it.
pub fn bang_comment(s: &str, n: usize, i: usize) -> (r: Option<usize>)
    requires
        n as int == s@.len(),
        i <= n,
    ensures
        r is Some <==> sp_comment(s@, i as int) is Some,
        r matches Some(j) ==> sp_comment(s@, i as int) == Some(j as int) && i < j <= n,
{
    if i < n {
        if s.get_char(i) == '!' {
            return Some(skip_line(s, n, i + 1));
        }
    }
    None
}

/// The tail of a comment block, as [`sp_comments_more`] describes it.
fn comments_more(s: &str, n: usize, i: usize) -> (r: usize)
    requires
        n as int == s@.len(),
        i <= n,
    ensures
        r as int == sp_comments_more(s@, i as int),
        i <= r <= n,
    decreases n - i,
{
    match eol_at(s, n, i) {
        Some(k) => match bang_comment(s, n, k) {
            Some(m) => comments_more(s, n, m),
            None => i,
        },
        None => i,
    }
}

/// The whole comment block, as [`sp_comments`] describes it.
fn comments(s: &str, n: usize, i: usize) -> (r: usize)
    requires
        n as int == s@.len(),
        i <= n,
    ensures
        r as int == sp_comments(s@, i as int),
        i <= r <= n,
{
    match bang_comment(s, n, i) {
        Some(j) => comments_more(s, n, j),
        None => i,
    }
}

/// Whether `ch` draws one cell.
fn glyph(ch: char) -> (b: bool)
    ensures
        b == is_glyph(ch),
{
    ch == '.' || ch == 'O'
}

/// The end of the glyph run at `i`, as [`sp_run_end`] describes it.
fn run_end(s: &str, n: usize, i: usize) -> (j: usize)
    requires
        n as int == s@.len(),
        i <= n,
    ensures
        j as int == sp_run_end(s@, i as int),
        i <= j <= n,
    decreases n - i,
{
    if i < n {
        if glyph(s.get_char(i)) {
            return run_end(s, n, i + 1);
        }
    }
    i
}

/// One nonempty glyph row at `i`: the position after it and its cells.
///
/// `None` exactly when no glyph stands at `i`.
pub fn cell_row(s: &str, n: usize, i: usize) -> (r: Option<(usize, Vec<Cell>)>)
    requires
        n as int == s@.len(),
        i <= n,
    ensures
        r is Some <==> ((i as int) < s@.len() && is_glyph(s@[i as int])),
        r matches Some((j, row)) ==> {
            &&& j as int == sp_run_end(s@, i as int)
            &&& row@ == sp_row(s@, i as int, j as int)
            &&& i < j <= n
        },
{
    if i < n && glyph(s.get_char(i)) {
        let j = run_end(s, n, i);
        proof {
            lemma_run_end_bounds(s@, i as int + 1);
            assert(sp_run_end(s@, i as int) == sp_run_end(s@, i as int + 1));
        }
        let mut row: Vec<Cell> = Vec::new();
        let mut k: usize = i;
        while k < j
            invariant
                n as int == s@.len(),
                i <= k <= j <= n,
                row@ == sp_row(s@, i as int, k as int),
            decreases j - k,
        {
            let cell = if s.get_char(k) == 'O' {
                Cell::Alive
            } else {
                Cell::Dead
            };
            row.push(cell);
            proof {
                assert(row@ =~= sp_row(s@, i as int, k as int + 1));
            }
            k = k + 1;
        }
        Some((j, row))
    } else {
        None
    }
}

/// One row item at `i`, as [`sp_item`] describes it.
fn item(s: &str, n: usize, i: usize) -> (r: Option<(usize, Vec<Cell>)>)
    requires
        n as int == s@.len(),
        i <= n,
    ensures
        r is Some <==> sp_item(s@, i as int) is Some,
        r matches Some((j, row)) ==> sp_item(s@, i as int) == Some((j as int, row@)) && i <= j
            <= n,
{
    match cell_row(s, n, i) {
        Some(jr) => Some(jr),
        None => {
            match eol_at(s, n, i) {
                Some(_) => Some((i, Vec::new())),
                None => None,
            }
        },
    }
}

/// The tail of the row list, as [`sp_rows_more`] describes it.
fn rows_more(s: &str, n: usize, i: usize, acc: Vec<Vec<Cell>>) -> (r: (usize, Vec<Vec<Cell>>))
    requires
        n as int == s@.len(),
        i <= n,
    ensures
        (r.0 as int, rows_view(r.1@)) == sp_rows_more(s@, i as int, rows_view(acc@)),
        r.0 <= n,
    decreases n - i,
{
    match eol_at(s, n, i) {
        Some(k) => match item(s, n, k) {
            Some((j, row)) => {
                let mut acc2 = acc;
                acc2.push(row);
                proof {
                    assert(rows_view(acc2@) =~= rows_view(acc@).push(row@));
                }
                rows_more(s, n, j, acc2)
            },
            None => (i, acc),
        },
        None => (i, acc),
    }
}

/// The whole row list, as [`sp_rows`] describes it.
fn rows(s: &str, n: usize, i: usize) -> (r: (usize, Vec<Vec<Cell>>))
    requires
        n as int == s@.len(),
        i <= n,
    ensures
        (r.0 as int, rows_view(r.1@)) == sp_rows(s@, i as int),
        r.0 <= n,
{
    match item(s, n, i) {
        Some((j, row)) => {
            let mut acc: Vec<Vec<Cell>> = Vec::new();
            acc.push(row);
            proof {
                assert(rows_view(acc@) =~= seq![row@]);
            }
            rows_more(s, n, j, acc)
        },
        None => {
            proof {
                assert(rows_view(Seq::<Vec<Cell>>::empty()) =~= Seq::<Seq<Cell>>::empty());
            }
            (i, Vec::new())
        },
    }
}

/// The plaintext grammar applied to the whole input: the parsed rows, or
/// `None` when the text is not plaintext.
pub fn plaintext(input: &str) -> (r: Option<Vec<Vec<Cell>>>)
    ensures
        r is Some <==> sp_plaintext(input@) is Some,
        r matches Some(rows) ==> sp_plaintext(input@) == Some(rows_view(rows@)),
{
    let n = input.unicode_len();
    let start = match bang_comment(input, n, 0) {
        Some(_) => {
            let c = comments(input, n, 0);
            match eol_at(input, n, c) {
                Some(k) => k,
                None => {
                    return None;
                },
            }
        },
        None => {
            if !(n > 0 && glyph(input.get_char(0))) {
                return None;
            }
            0
        },
    };
    let (p, rows_parsed) = rows(input, n, start);
    let q = match eol_at(input, n, p) {
        Some(e) => e,
        None => p,
    };
    if q == n {
        Some(rows_parsed)
    } else {
        None
    }
}

/// Parse a plaintext pattern into a grid.
///
/// Succeeds exactly when the grammar accepts the text and the padded
/// rectangle fits in memory; the grid then has one row per parsed row, the
/// widest row's width, and every shorter row padded with dead cells.
pub fn parse_plaintext(input: &str) -> (r: Result<Grid, ParseError>)
    ensures
        r is Ok <==> sp_plaintext_ok(input@),
        r matches Ok(g) ==> {
            let rows = sp_plaintext(input@).unwrap();
            &&& g.height as int == rows.len()
            &&& g.width as int == sp_max_width(rows)
            &&& g.cells@ == sp_grid_cells(rows, sp_max_width(rows))
            &&& g.wf()
        },
        r matches Err(e) ==> {
            &&& e.kind == (if sp_plaintext(input@) is Some {
                ParseErrorKind::Dimensions
            } else {
                ParseErrorKind::Syntax
            })
            &&& e.at as int == (if sp_plaintext(input@) is Some {
                0
            } else {
                sp_plaintext_err_at(input@)
            })
        },
{
    let n = input.unicode_len();
    let start = match bang_comment(input, n, 0) {
        Some(_) => {
            let c = comments(input, n, 0);
            match eol_at(input, n, c) {
                Some(k) => k,
                None => {
                    return Err(ParseError { at: c, kind: ParseErrorKind::Syntax });
                },
            }
        },
        None => {
            if !(n > 0 && glyph(input.get_char(0))) {
                return Err(ParseError { at: 0, kind: ParseErrorKind::Syntax });
            }
            0
        },
    };
    let (p, rows_parsed) = rows(input, n, start);
    let q = match eol_at(input, n, p) {
        Some(e) => e,
        None => p,
    };
    if q != n {
        return Err(ParseError { at: q, kind: ParseErrorKind::Syntax });
    }
    normalize_rows(rows_parsed)
}

/// Pad the parsed rows into a rectangular grid of the widest row's width.
///
/// Fails only when the padded rectangle would overflow the machine.
fn normalize_rows(rows: Vec<Vec<Cell>>) -> (r: Result<Grid, ParseError>)
    ensures
        r is Ok <==> rows_view(rows@).len() * sp_max_width(rows_view(rows@)) <= usize::MAX as int,
        r matches Ok(g) ==> {
            &&& g.height as int == rows_view(rows@).len()
            &&& g.width as int == sp_max_width(rows_view(rows@))
            &&& g.cells@ == sp_grid_cells(rows_view(rows@), sp_max_width(rows_view(rows@)))
            &&& g.wf()
        },
        r matches Err(e) ==> e.kind == ParseErrorKind::Dimensions && e.at == 0,
{
    let ghost rv = rows_view(rows@);
    let h = rows.len();
    let mut w: usize = 0;
    let mut y: usize = 0;
    while y < h
        invariant
            h == rows@.len(),
            rv == rows_view(rows@),
            y <= h,
            w as int == sp_max_width(rv.take(y as int)),
        decreases h - y,
    {
        proof {
            assert(rv.take(y as int + 1).drop_last() =~= rv.take(y as int));
            assert(rv.take(y as int + 1).last() == rows@[y as int]@);
        }
        if rows[y].len() > w {
            w = rows[y].len();
        }
        y = y + 1;
    }
    proof {
        assert(rv.take(h as int) =~= rv);
    }
    match h.checked_mul(w) {
        None => Err(ParseError { at: 0, kind: ParseErrorKind::Dimensions }),
        Some(total) => {
            let mut cells: Vec<Cell> = Vec::new();
            let mut yy: usize = 0;
            while yy < h
                invariant
                    h == rows@.len(),
                    rv == rows_view(rows@),
                    total == h as int * w as int,
                    w as int == sp_max_width(rv),
                    yy <= h,
                    cells@.len() == yy as int * w as int,
                    forall|k: int|
                        0 <= k < cells@.len() ==> cells@[k] == sp_grid_cells(rv, w as int)[k],
                decreases h - yy,
            {
                let mut x: usize = 0;
                while x < w
                    invariant
                        h == rows@.len(),
                        rv == rows_view(rows@),
                        total == h as int * w as int,
                        w as int == sp_max_width(rv),
                        yy < h,
                        x <= w,
                        cells@.len() == yy as int * w as int + x as int,
                        forall|k: int|
                            0 <= k < cells@.len() ==> cells@[k] == sp_grid_cells(rv, w as int)[k],
                    decreases w - x,
                {
                    let cell = if x < rows[yy].len() {
                        rows[yy][x]
                    } else {
                        Cell::Dead
                    };
                    cells.push(cell);
                    proof {
                        crate::step::lemma_index_bound(w as int, h as int, yy as int, x as int);
                        crate::step::lemma_index_decomp(w as int, yy as int, x as int);
                        assert(h as int * w as int == rv.len() * w as int);
                        assert(sp_grid_cells(rv, w as int)[yy as int * w as int + x as int]
                            == cell);
                    }
                    x = x + 1;
                }
                proof {
                    assert((yy + 1) as int * w as int == yy as int * w as int + w as int)
                        by (nonlinear_arith);
                }
                yy = yy + 1;
            }
            proof {
                assert(cells@.len() == h as int * w as int);
                assert(sp_grid_cells(rv, w as int).len() == (rv.len() * w as int) as nat);
                assert(cells@ =~= sp_grid_cells(rv, w as int));
            }
            Ok(Grid { width: w, height: h, cells })
        },
    }
}

/// The plaintext pattern reader: its sniff and parse entry points.
pub struct PlaintextParser();

impl PlaintextParser {
    /// Cheap detection: the first character is a comment mark or a glyph.
    pub fn sniff(&self, input: &str) -> (b: bool)
        ensures
            b == sniff_plaintext(input@),
    {
        if input.unicode_len() == 0 {
            return false;
        }
        let ch = input.get_char(0);
        ch == '!' || ch == '.' || ch == 'O'
    }

    /// Parse the text as a plaintext pattern.
    pub fn parse(&self, input: &str) -> (r: Result<Grid, ParseError>)
        ensures
            r is Ok <==> sp_plaintext_ok(input@),
            r matches Ok(g) ==> {
                let rows = sp_plaintext(input@).unwrap();
                &&& g.height as int == rows.len()
                &&& g.width as int == sp_max_width(rows)
                &&& g.cells@ == sp_grid_cells(rows, sp_max_width(rows))
                &&& g.wf()
            },
            r matches Err(e) ==> {
                &&& e.kind == (if sp_plaintext(input@) is Some {
                    ParseErrorKind::Dimensions
                } else {
                    ParseErrorKind::Syntax
                })
                &&& e.at as int == (if sp_plaintext(input@) is Some {
                    0
                } else {
                    sp_plaintext_err_at(input@)
                })
            },
    {
        parse_plaintext(input)
    }
}

} // verus!
