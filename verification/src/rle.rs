//! The run-length-encoded pattern format: optional `#` comment lines, a
//! header `x = <width>, y = <height>[, rule = <B/S>]`, then a stream of
//! `<count>?('b'|'o'|'$')` runs closed by `!`.  `b` is a run of dead cells,
//! `o` a run of alive cells, and `$` advances to the next row, padding the
//! rest of the current one with dead cells; whatever follows the `!` is
//! ignored.
//!
//! The grammar is stated as spec functions over the character sequence, and
//! every reader is proved to return exactly what the grammar says.

use vstd::prelude::*;
use vstd::string::StrSliceExecFns;
use crate::cell::Cell;
use crate::grid::{Grid, ParseError, ParseErrorKind};
use crate::plaintext::{sp_eol, sp_skip_line};

verus! {

/// A comment at `i`: a `#` and the rest of its line.
pub open spec fn sp_hash_comment(s: Seq<char>, i: int) -> Option<int> {
    if 0 <= i < s.len() && s[i] == '#' {
        Some(sp_skip_line(s, i + 1))
    } else {
        None
    }
}

/// The comment block starting at `i`: comment lines, each closed by a line
/// ending.  `None` when a comment reaches the end of the input unclosed.
pub open spec fn sp_rle_comments(s: Seq<char>, i: int) -> Option<int>
    decreases s.len() - i,
{
    match sp_hash_comment(s, i) {
        Some(j) => match sp_eol(s, j) {
            Some(k) => if i < k && k <= s.len() {
                sp_rle_comments(s, k)
            } else {
                None
            },
            None => None,
        },
        None => Some(i),
    }
}

/// The position after the spaces and tabs at `i`.
pub open spec fn sp_spaces(s: Seq<char>, i: int) -> int
    decreases s.len() - i,
{
    if 0 <= i < s.len() && (s[i] == ' ' || s[i] == '\t') {
        sp_spaces(s, i + 1)
    } else {
        i
    }
}

/// The position after the whitespace (spaces, tabs, line endings) at `i`.
pub open spec fn sp_multispace(s: Seq<char>, i: int) -> int
    decreases s.len() - i,
{
    if 0 <= i < s.len() && (s[i] == ' ' || s[i] == '\t' || s[i] == '\r' || s[i] == '\n') {
        sp_multispace(s, i + 1)
    } else {
        i
    }
}

/// Whether `ch` is a decimal digit.
pub open spec fn is_digit(ch: char) -> bool {
    48 <= (ch as u32) && (ch as u32) <= 57
}

/// The numeric value of a digit; 0 for any other character.
pub open spec fn digit_val(ch: char) -> int {
    if is_digit(ch) {
        (ch as u32) as int - 48
    } else {
        0
    }
}

/// The end of the digit run starting at `i`.
pub open spec fn sp_digits_end(s: Seq<char>, i: int) -> int
    decreases s.len() - i,
{
    if 0 <= i < s.len() && is_digit(s[i]) {
        sp_digits_end(s, i + 1)
    } else {
        i
    }
}

/// The decimal value of the digits `s[i..j]`.
pub open spec fn sp_dec_val(s: Seq<char>, i: int, j: int) -> int
    decreases j - i,
{
    if i < j {
        sp_dec_val(s, i, j - 1) * 10 + digit_val(s[j - 1])
    } else {
        0
    }
}

/// A number at `i`: a nonempty digit run whose value the machine can hold,
/// with the position after it and its value.
pub open spec fn sp_number(s: Seq<char>, i: int) -> Option<(int, int)> {
    if 0 <= i < s.len() && is_digit(s[i]) {
        let j = sp_digits_end(s, i);
        let v = sp_dec_val(s, i, j);
        if v <= usize::MAX as int {
            Some((j, v))
        } else {
            None
        }
    } else {
        None
    }
}

/// Whether `ch` is an ASCII letter or digit.
pub open spec fn is_alnum(ch: char) -> bool {
    (48 <= (ch as u32) && (ch as u32) <= 57) || (65 <= (ch as u32) && (ch as u32) <= 90) || (97
        <= (ch as u32) && (ch as u32) <= 122)
}

/// The end of the letter-or-digit run starting at `i`.
pub open spec fn sp_alnum_end(s: Seq<char>, i: int) -> int
    decreases s.len() - i,
{
    if 0 <= i < s.len() && is_alnum(s[i]) {
        sp_alnum_end(s, i + 1)
    } else {
        i
    }
}

/// The optional rule clause after the dimensions: ` rule = <word>/<word>`,
/// with the position after it.  The rule itself is read and discarded: this
/// engine plays the standard rule table.
pub open spec fn sp_rule(s: Seq<char>, i: int) -> Option<int> {
    let a = sp_spaces(s, i);
    if 0 <= a && a + 4 <= s.len() && s[a] == 'r' && s[a + 1] == 'u' && s[a + 2] == 'l' && s[a + 3]
        == 'e' {
        let b = sp_spaces(s, a + 4);
        if 0 <= b < s.len() && s[b] == '=' {
            let c0 = sp_spaces(s, b + 1);
            let d = sp_alnum_end(s, c0);
            if d > c0 && 0 <= d < s.len() && s[d] == '/' {
                let e = sp_alnum_end(s, d + 1);
                if e > d + 1 {
                    Some(e)
                } else {
                    None
                }
            } else {
                None
            }
        } else {
            None
        }
    } else {
        None
    }
}

/// The optional `, rule = ...` clause and the line ending the header stops
/// before, after the height was read at `p`.
pub open spec fn sp_header_tail(s: Seq<char>, p: int, w: int, h: int) -> Option<(int, int, int)> {
    let t = if 0 <= p < s.len() && s[p] == ',' {
        sp_rule(s, p + 1)
    } else {
        Some(p)
    };
    match t {
        Some(tp) => if sp_eol(s, tp) is Some {
            Some((tp, w, h))
        } else {
            None
        },
        None => None,
    }
}

/// The header at `i`: `x = <width>, y = <height>[, rule = <B/S>]`, stopped
/// by a line ending.  The `x` must stand at `i` itself, so that a header
/// with no comments before it announces itself to [`sniff_rle`]; spaces are
/// allowed everywhere after it.  Yields the position of that line ending and
/// the two dimensions.
pub open spec fn sp_header(s: Seq<char>, i: int) -> Option<(int, int, int)> {
    if 0 <= i < s.len() && s[i] == 'x' {
        let b = sp_spaces(s, i + 1);
        if 0 <= b < s.len() && s[b] == '=' {
            let c0 = sp_spaces(s, b + 1);
            match sp_number(s, c0) {
                Some((d, w)) => if 0 <= d < s.len() && s[d] == ',' {
                    let e = sp_spaces(s, d + 1);
                    if 0 <= e < s.len() && s[e] == 'y' {
                        let f = sp_spaces(s, e + 1);
                        if 0 <= f < s.len() && s[f] == '=' {
                            let g = sp_spaces(s, f + 1);
                            match sp_number(s, g) {
                                Some((p, h)) => sp_header_tail(s, p, w, h),
                                None => None,
                            }
                        } else {
                            None
                        }
                    } else {
                        None
                    }
                } else {
                    None
                },
                None => None,
            }
        } else {
            None
        }
    } else {
        None
    }
}

/// Whether `ch` closes a run: a dead run, an alive run, or an end of row.
pub open spec fn is_tag(ch: char) -> bool {
    ch == 'b' || ch == 'o' || ch == '$'
}

/// One run at `i`: an optional count (1 when absent) and a tag character.
pub open spec fn sp_run_item(s: Seq<char>, i: int) -> Option<(int, (usize, char))> {
    if 0 <= i < s.len() && is_digit(s[i]) {
        match sp_number(s, i) {
            Some((j, v)) => if 0 <= j < s.len() && is_tag(s[j]) {
                Some((j + 1, (v as usize, s[j])))
            } else {
                None
            },
            None => None,
        }
    } else if 0 <= i < s.len() && is_tag(s[i]) {
        Some((i + 1, (1 as usize, s[i])))
    } else {
        None
    }
}

/// The run stream from `i`: whitespace-separated runs gathered onto `acc`
/// until the closing `!`, with the position after the `!`.
pub open spec fn sp_runs(s: Seq<char>, i: int, acc: Seq<(usize, char)>) -> Option<
    (int, Seq<(usize, char)>),
>
    decreases s.len() - i,
{
    let a = sp_multispace(s, i);
    match sp_run_item(s, a) {
        Some((j, it)) => if i < j && j <= s.len() {
            sp_runs(s, j, acc.push(it))
        } else {
            None
        },
        None => if 0 <= a < s.len() && s[a] == '!' {
            Some((a + 1, acc))
        } else {
            None
        },
    }
}

/// The whole RLE grammar: comments, header, line ending, runs; whatever
/// follows the closing `!` is ignored.  Yields width, height and the runs.
pub open spec fn sp_rle(s: Seq<char>) -> Option<(int, int, Seq<(usize, char)>)> {
    match sp_rle_comments(s, 0) {
        Some(c) => match sp_header(s, c) {
            Some((t, w, h)) => match sp_eol(s, t) {
                Some(u) => match sp_runs(s, u, Seq::empty()) {
                    Some((v, runs)) => Some((w, h, runs)),
                    None => None,
                },
                None => None,
            },
            None => None,
        },
        None => None,
    }
}

/// Row padding for one `$` tag repeated `count` times, iteration `k` first:
/// the first advance pads the current row to its end (nothing when already
/// at a row start), every further one pads a whole blank row.  `None` when
/// the grid has no width to pad into or the padding overruns `w * h`.
pub open spec fn sp_pad(acc: Seq<Cell>, w: int, h: int, count: int, k: int) -> Option<Seq<Cell>>
    decreases count - k,
{
    if k >= count {
        Some(acc)
    } else if w <= 0 {
        None
    } else {
        let row = (acc.len() as int) % w;
        if k == 0 && row == 0 {
            sp_pad(acc, w, h, count, k + 1)
        } else if acc.len() + (w - row) <= w * h {
            sp_pad(acc + Seq::new((w - row) as nat, |q: int| Cell::Dead), w, h, count, k + 1)
        } else {
            None
        }
    }
}

/// One run applied to the cells gathered so far: a `$` pads rows, any other
/// tag appends its cells.  `None` when the run overruns `w * h`.
pub open spec fn sp_apply(acc: Seq<Cell>, w: int, h: int, item: (usize, char)) -> Option<
    Seq<Cell>,
> {
    if item.1 == '$' {
        sp_pad(acc, w, h, item.0 as int, 0)
    } else {
        let cell = if item.1 == 'o' {
            Cell::Alive
        } else {
            Cell::Dead
        };
        if acc.len() + item.0 as int <= w * h {
            Some(acc + Seq::new(item.0 as nat, |q: int| cell))
        } else {
            None
        }
    }
}

/// The cells drawn by the first `n` runs.
pub open spec fn sp_build(runs: Seq<(usize, char)>, w: int, h: int, n: int) -> Option<Seq<Cell>>
    decreases n,
{
    if n <= 0 {
        Some(Seq::empty())
    } else {
        match sp_build(runs, w, h, n - 1) {
            Some(acc) => sp_apply(acc, w, h, runs[n - 1]),
            None => None,
        }
    }
}

/// The grid the whole RLE text describes: the runs drawn onto a `w * h`
/// buffer, the remainder filled with dead cells.  `None` when the grammar
/// rejects the text, the dimensions overflow the machine, or the runs
/// overrun the dimensions.
pub open spec fn sp_rle_grid(s: Seq<char>) -> Option<(int, int, Seq<Cell>)> {
    match sp_rle(s) {
        Some((w, h, runs)) => if w * h <= usize::MAX as int {
            match sp_build(runs, w, h, runs.len() as int) {
                Some(acc) => Some(
                    (w, h, acc + Seq::new((w * h - acc.len()) as nat, |q: int| Cell::Dead)),
                ),
                None => None,
            }
        } else {
            None
        },
        None => None,
    }
}

/// Whether RLE parsing succeeds outright.
pub open spec fn sp_rle_ok(s: Seq<char>) -> bool {
    sp_rle_grid(s) is Some
}

/// Where a failed RLE parse stops making sense: the end of the input when a
/// comment is left unclosed, the start of a header that will not parse, or
/// the start of a run stream that never reaches its `!`.  Meaningful only
/// when [`sp_rle`] is `None`.
pub open spec fn sp_rle_err_at(s: Seq<char>) -> int {
    match sp_rle_comments(s, 0) {
        Some(c) => match sp_header(s, c) {
            Some((t, w, h)) => match sp_eol(s, t) {
                Some(u) => u,
                None => t,
            },
            None => c,
        },
        None => s.len() as int,
    }
}

/// Whether the text's first character announces the RLE format.
pub open spec fn sniff_rle(s: Seq<char>) -> bool {
    s.len() > 0 && (s[0] == '#' || s[0] == 'x')
}

/// Padding never fills past `w * h`, provided it starts within it.
proof fn lemma_pad_len(acc: Seq<Cell>, w: int, h: int, count: int, k: int)
    requires
        0 < w,
        acc.len() <= w * h,
        sp_pad(acc, w, h, count, k) is Some,
    ensures
        sp_pad(acc, w, h, count, k).unwrap().len() <= w * h,
    decreases count - k,
{
    if k >= count {
    } else {
        let row = (acc.len() as int) % w;
        if k == 0 && row == 0 {
            lemma_pad_len(acc, w, h, count, k + 1);
        } else if acc.len() + (w - row) <= w * h {
            vstd::arithmetic::div_mod::lemma_mod_bound(acc.len() as int, w);
            lemma_pad_len(
                acc + Seq::new((w - row) as nat, |q: int| Cell::Dead),
                w,
                h,
                count,
                k + 1,
            );
        }
    }
}

/// Once a run fails to draw, no longer prefix of runs draws either.
proof fn lemma_build_none(runs: Seq<(usize, char)>, w: int, h: int, n1: int, n2: int)
    requires
        0 <= n1 <= n2,
        sp_build(runs, w, h, n1) is None,
    ensures
        sp_build(runs, w, h, n2) is None,
    decreases n2,
{
    if n2 > n1 {
        lemma_build_none(runs, w, h, n1, n2 - 1);
    }
}

/// The drawn cells never fill past `w * h`.
proof fn lemma_build_len(runs: Seq<(usize, char)>, w: int, h: int, n: int)
    requires
        0 <= w * h,
        sp_build(runs, w, h, n) is Some,
    ensures
        sp_build(runs, w, h, n).unwrap().len() <= w * h,
    decreases n,
{
    if n > 0 {
        lemma_build_len(runs, w, h, n - 1);
        let acc = sp_build(runs, w, h, n - 1).unwrap();
        let item = runs[n - 1];
        if item.1 == '$' && item.0 > 0 {
            lemma_pad_len(acc, w, h, item.0 as int, 0);
        }
    }
}

/// A digit run neither moves backwards nor leaves the input, and holds
/// digits only.
proof fn lemma_digits_prop(s: Seq<char>, i: int)
    requires
        0 <= i <= s.len(),
    ensures
        i <= sp_digits_end(s, i) <= s.len(),
        forall|t: int| i <= t < sp_digits_end(s, i) ==> is_digit(s[t]),
    decreases s.len() - i,
{
    if 0 <= i < s.len() && is_digit(s[i]) {
        lemma_digits_prop(s, i + 1);
    }
}

/// A decimal value is never negative.
proof fn lemma_dec_val_nonneg(s: Seq<char>, i: int, j: int)
    ensures
        sp_dec_val(s, i, j) >= 0,
    decreases j - i,
{
    if i < j {
        lemma_dec_val_nonneg(s, i, j - 1);
    }
}

/// A decimal value only grows as more digits are taken in.
proof fn lemma_dec_val_mono(s: Seq<char>, i: int, k: int, j: int)
    requires
        i <= k <= j,
    ensures
        sp_dec_val(s, i, j) >= sp_dec_val(s, i, k),
    decreases j - k,
{
    if k < j {
        lemma_dec_val_mono(s, i, k, j - 1);
        lemma_dec_val_nonneg(s, i, j - 1);
    }
}

/// One `#` comment, as [`sp_hash_comment`] describes it.
pub fn hash_comment(s: &str, n: usize, i: usize) -> (r: Option<usize>)
    requires
        n as int == s@.len(),
        i <= n,
    ensures
        r is Some <==> sp_hash_comment(s@, i as int) is Some,
        r matches Some(j) ==> sp_hash_comment(s@, i as int) == Some(j as int) && i < j <= n,
{
    if i < n {
        if s.get_char(i) == '#' {
            return Some(crate::plaintext::skip_line(s, n, i + 1));
        }
    }
    None
}

/// The comment block, as [`sp_rle_comments`] describes it.
fn rle_comments(s: &str, n: usize, i: usize) -> (r: Option<usize>)
    requires
        n as int == s@.len(),
        i <= n,
    ensures
        r is Some <==> sp_rle_comments(s@, i as int) is Some,
        r matches Some(c) ==> sp_rle_comments(s@, i as int) == Some(c as int) && i <= c <= n,
    decreases n - i,
{
    match hash_comment(s, n, i) {
        Some(j) => match crate::plaintext::eol_at(s, n, j) {
            Some(k) => rle_comments(s, n, k),
            None => None,
        },
        None => Some(i),
    }
}

/// The spaces and tabs at `i`, as [`sp_spaces`] describes them.
fn spaces(s: &str, n: usize, i: usize) -> (j: usize)
    requires
        n as int == s@.len(),
        i <= n,
    ensures
        j as int == sp_spaces(s@, i as int),
        i <= j <= n,
    decreases n - i,
{
    if i < n {
        let ch = s.get_char(i);
        if ch == ' ' || ch == '\t' {
            return spaces(s, n, i + 1);
        }
    }
    i
}

/// The whitespace at `i`, as [`sp_multispace`] describes it.
fn multispace(s: &str, n: usize, i: usize) -> (j: usize)
    requires
        n as int == s@.len(),
        i <= n,
    ensures
        j as int == sp_multispace(s@, i as int),
        i <= j <= n,
    decreases n - i,
{
    if i < n {
        let ch = s.get_char(i);
        if ch == ' ' || ch == '\t' || ch == '\r' || ch == '\n' {
            return multispace(s, n, i + 1);
        }
    }
    i
}

/// Whether `ch` is a decimal digit.
fn digit(ch: char) -> (b: bool)
    ensures
        b == is_digit(ch),
{
    let u = ch as u32;
    48 <= u && u <= 57
}

/// The end of the digit run at `i`, as [`sp_digits_end`] describes it.
fn digits_end(s: &str, n: usize, i: usize) -> (j: usize)
    requires
        n as int == s@.len(),
        i <= n,
    ensures
        j as int == sp_digits_end(s@, i as int),
        i <= j <= n,
    decreases n - i,
{
    if i < n {
        if digit(s.get_char(i)) {
            return digits_end(s, n, i + 1);
        }
    }
    i
}

/// Whether `ch` is an ASCII letter or digit.
fn alnum(ch: char) -> (b: bool)
    ensures
        b == is_alnum(ch),
{
    let u = ch as u32;
    (48 <= u && u <= 57) || (65 <= u && u <= 90) || (97 <= u && u <= 122)
}

/// The end of the letter-or-digit run at `i`, as [`sp_alnum_end`] describes
/// it.
fn alnum_end(s: &str, n: usize, i: usize) -> (j: usize)
    requires
        n as int == s@.len(),
        i <= n,
    ensures
        j as int == sp_alnum_end(s@, i as int),
        i <= j <= n,
    decreases n - i,
{
    if i < n {
        if alnum(s.get_char(i)) {
            return alnum_end(s, n, i + 1);
        }
    }
    i
}

/// One number, as [`sp_number`] describes it: its digits are folded into a
/// machine word, and a value too large for one is a failed parse.
fn number(s: &str, n: usize, i: usize) -> (r: Option<(usize, usize)>)
    requires
        n as int == s@.len(),
        i <= n,
    ensures
        r is Some <==> sp_number(s@, i as int) is Some,
        r matches Some((j, v)) ==> sp_number(s@, i as int) == Some((j as int, v as int)) && i < j
            <= n,
{
    if i < n && digit(s.get_char(i)) {
        proof {
            lemma_digits_prop(s@, i as int + 1);
            assert(sp_digits_end(s@, i as int) == sp_digits_end(s@, i as int + 1));
        }
        let j = digits_end(s, n, i);
        let mut acc: usize = 0;
        let mut overflow = false;
        let mut k: usize = i;
        while k < j
            invariant
                n as int == s@.len(),
                i <= k <= j <= n,
                j as int == sp_digits_end(s@, i as int),
                !overflow ==> acc as int == sp_dec_val(s@, i as int, k as int),
                overflow ==> sp_dec_val(s@, i as int, k as int) > usize::MAX as int,
            decreases j - k,
        {
            let ch = s.get_char(k);
            let ghost old_acc = acc;
            let ghost old_overflow = overflow;
            let d = (ch as u32) as usize;
            let d = if d >= 48 {
                d - 48
            } else {
                0
            };
            if !overflow {
                match acc.checked_mul(10) {
                    Some(m) => match m.checked_add(d) {
                        Some(a2) => {
                            acc = a2;
                        },
                        None => {
                            overflow = true;
                        },
                    },
                    None => {
                        overflow = true;
                    },
                }
            }
            proof {
                lemma_digits_prop(s@, i as int);
                assert(is_digit(s@[k as int]));
                assert(d as int == digit_val(s@[k as int]));
                assert(sp_dec_val(s@, i as int, k as int + 1) == sp_dec_val(
                    s@,
                    i as int,
                    k as int,
                ) * 10 + digit_val(s@[k as int]));
                if old_overflow {
                    lemma_dec_val_nonneg(s@, i as int, k as int);
                    assert(sp_dec_val(s@, i as int, k as int + 1) > usize::MAX as int);
                }
            }
            k = k + 1;
        }
        if overflow {
            proof {
                lemma_dec_val_mono(s@, i as int, k as int, j as int);
            }
            None
        } else {
            Some((j, acc))
        }
    } else {
        None
    }
}

/// The optional rule clause, as [`sp_rule`] describes it.
fn rule(s: &str, n: usize, i: usize) -> (r: Option<usize>)
    requires
        n as int == s@.len(),
        i <= n,
    ensures
        r is Some <==> sp_rule(s@, i as int) is Some,
        r matches Some(j) ==> sp_rule(s@, i as int) == Some(j as int) && i <= j <= n,
{
    let a = spaces(s, n, i);
    if n - a >= 4 && s.get_char(a) == 'r' && s.get_char(a + 1) == 'u' && s.get_char(a + 2) == 'l'
        && s.get_char(a + 3) == 'e' {
        let b = spaces(s, n, a + 4);
        if b < n && s.get_char(b) == '=' {
            let c0 = spaces(s, n, b + 1);
            let d = alnum_end(s, n, c0);
            if d > c0 && d < n && s.get_char(d) == '/' {
                let e = alnum_end(s, n, d + 1);
                if e > d + 1 {
                    return Some(e);
                }
            }
        }
    }
    None
}

/// The header, as [`sp_header`] describes it: the position of the line
/// ending that stops it, the width and the height.
pub fn header(s: &str, n: usize, i: usize) -> (r: Option<(usize, usize, usize)>)
    requires
        n as int == s@.len(),
        i <= n,
    ensures
        r is Some <==> sp_header(s@, i as int) is Some,
        r matches Some((t, w, h)) ==> sp_header(s@, i as int) == Some(
            (t as int, w as int, h as int),
        ) && i <= t <= n,
{
    if !(i < n && s.get_char(i) == 'x') {
        return None;
    }
    let b = spaces(s, n, i + 1);
    if !(b < n && s.get_char(b) == '=') {
        return None;
    }
    let c0 = spaces(s, n, b + 1);
    let (d, w) = match number(s, n, c0) {
        Some(x) => x,
        None => {
            return None;
        },
    };
    if !(d < n && s.get_char(d) == ',') {
        return None;
    }
    let e = spaces(s, n, d + 1);
    if !(e < n && s.get_char(e) == 'y') {
        return None;
    }
    let f = spaces(s, n, e + 1);
    if !(f < n && s.get_char(f) == '=') {
        return None;
    }
    let g = spaces(s, n, f + 1);
    let (p, h) = match number(s, n, g) {
        Some(x) => x,
        None => {
            return None;
        },
    };
    let t = if p < n && s.get_char(p) == ',' {
        match rule(s, n, p + 1) {
            Some(tp) => tp,
            None => {
                return None;
            },
        }
    } else {
        p
    };
    match crate::plaintext::eol_at(s, n, t) {
        Some(_) => Some((t, w, h)),
        None => None,
    }
}

/// Whether `ch` closes a run.
fn tag(ch: char) -> (b: bool)
    ensures
        b == is_tag(ch),
{
    ch == 'b' || ch == 'o' || ch == '$'
}

/// One run, as [`sp_run_item`] describes it.
fn run_item(s: &str, n: usize, i: usize) -> (r: Option<(usize, (usize, char))>)
    requires
        n as int == s@.len(),
        i <= n,
    ensures
        r is Some <==> sp_run_item(s@, i as int) is Some,
        r matches Some((j, it)) ==> sp_run_item(s@, i as int) == Some((j as int, it)) && i < j
            <= n,
{
    if i < n && digit(s.get_char(i)) {
        match number(s, n, i) {
            Some((j, v)) => {
                if j < n {
                    let t = s.get_char(j);
                    if tag(t) {
                        return Some((j + 1, (v, t)));
                    }
                }
                None
            },
            None => None,
        }
    } else if i < n {
        let t = s.get_char(i);
        if tag(t) {
            Some((i + 1, (1, t)))
        } else {
            None
        }
    } else {
        None
    }
}

/// The run stream, as [`sp_runs`] describes it.
fn runs(s: &str, n: usize, i: usize, acc: Vec<(usize, char)>) -> (r: Option<
    (usize, Vec<(usize, char)>),
>)
    requires
        n as int == s@.len(),
        i <= n,
    ensures
        r is Some <==> sp_runs(s@, i as int, acc@) is Some,
        r matches Some((e, v)) ==> sp_runs(s@, i as int, acc@) == Some((e as int, v@)) && e <= n,
    decreases n - i,
{
    let a = multispace(s, n, i);
    match run_item(s, n, a) {
        Some((j, it)) => {
            let mut acc2 = acc;
            acc2.push(it);
            runs(s, n, j, acc2)
        },
        None => {
            if a < n && s.get_char(a) == '!' {
                Some((a + 1, acc))
            } else {
                None
            }
        },
    }
}

/// The whole run stream from `i`, as [`sp_runs`] describes it starting from
/// an empty gathering.
pub fn cells(s: &str, n: usize, i: usize) -> (r: Option<(usize, Vec<(usize, char)>)>)
    requires
        n as int == s@.len(),
        i <= n,
    ensures
        r is Some <==> sp_runs(s@, i as int, Seq::empty()) is Some,
        r matches Some((e, v)) ==> sp_runs(s@, i as int, Seq::empty()) == Some((e as int, v@))
            && e <= n,
{
    let acc: Vec<(usize, char)> = Vec::new();
    runs(s, n, i, acc)
}

/// Append `count` copies of `cell`.
fn push_cells(buf: &mut Vec<Cell>, cell: Cell, count: usize)
    requires
        old(buf)@.len() + count <= usize::MAX,
    ensures
        final(buf)@ == old(buf)@ + Seq::new(count as nat, |q: int| cell),
{
    let mut k: usize = 0;
    while k < count
        invariant
            k <= count,
            buf@.len() == old(buf)@.len() + k,
            buf@ == old(buf)@ + Seq::new(k as nat, |q: int| cell),
        decreases count - k,
    {
        buf.push(cell);
        proof {
            assert(buf@ =~= old(buf)@ + Seq::new(k as nat + 1, |q: int| cell));
        }
        k = k + 1;
    }
    proof {
        assert(buf@ =~= old(buf)@ + Seq::new(count as nat, |q: int| cell));
    }
}

/// Draw the runs onto a fresh `w * h` buffer, mirroring [`sp_build`], and
/// fill whatever remains with dead cells.
fn build_grid(w: usize, h: usize, run_list: &Vec<(usize, char)>) -> (r: Result<
    Vec<Cell>,
    ParseError,
>)
    requires
        w as int * h as int <= usize::MAX as int,
    ensures
        r is Ok <==> sp_build(run_list@, w as int, h as int, run_list@.len() as int) is Some,
        r matches Ok(buf) ==> {
            let acc = sp_build(run_list@, w as int, h as int, run_list@.len() as int).unwrap();
            &&& buf@ == acc + Seq::new((w as int * h as int - acc.len()) as nat, |q: int| Cell::Dead)
            &&& buf@.len() == w as int * h as int
        },
        r matches Err(e) ==> e.kind == ParseErrorKind::Dimensions && e.at == 0,
{
    let total = w * h;
    let m = run_list.len();
    let mut buf: Vec<Cell> = Vec::new();
    let mut idx: usize = 0;
    while idx < m
        invariant
            m == run_list@.len(),
            total == w as int * h as int,
            idx <= m,
            Some(buf@) == sp_build(run_list@, w as int, h as int, idx as int),
            buf@.len() <= total,
        decreases m - idx,
    {
        let ghost acc0 = buf@;
        let (count, t) = run_list[idx];
        if t == '$' {
            let mut k: usize = 0;
            while k < count
                invariant
                    m == run_list@.len(),
                    total == w as int * h as int,
                    idx < m,
                    run_list@[idx as int] == (count, t),
                    t == '$',
                    k <= count,
                    buf@.len() <= total,
                    Some(acc0) == sp_build(run_list@, w as int, h as int, idx as int),
                    sp_pad(acc0, w as int, h as int, count as int, 0) == sp_pad(
                        buf@,
                        w as int,
                        h as int,
                        count as int,
                        k as int,
                    ),
                decreases count - k,
            {
                if w == 0 {
                    proof {
                        lemma_build_none(
                            run_list@,
                            w as int,
                            h as int,
                            idx as int + 1,
                            run_list@.len() as int,
                        );
                    }
                    return Err(ParseError { at: 0, kind: ParseErrorKind::Dimensions });
                }
                let row = buf.len() % w;
                if k == 0 && row == 0 {
                } else {
                    let pad = w - row;
                    if pad <= total - buf.len() {
                        push_cells(&mut buf, Cell::Dead, pad);
                    } else {
                        proof {
                            lemma_build_none(
                                run_list@,
                                w as int,
                                h as int,
                                idx as int + 1,
                                run_list@.len() as int,
                            );
                        }
                        return Err(ParseError { at: 0, kind: ParseErrorKind::Dimensions });
                    }
                }
                k = k + 1;
            }
        } else {
            let cell = if t == 'o' {
                Cell::Alive
            } else {
                Cell::Dead
            };
            if count <= total - buf.len() {
                push_cells(&mut buf, cell, count);
            } else {
                proof {
                    lemma_build_none(
                        run_list@,
                        w as int,
                        h as int,
                        idx as int + 1,
                        run_list@.len() as int,
                    );
                }
                return Err(ParseError { at: 0, kind: ParseErrorKind::Dimensions });
            }
        }
        idx = idx + 1;
    }
    let ghost acc_final = buf@;
    let mut fill = buf.len();
    while fill < total
        invariant
            total == w as int * h as int,
            fill == buf@.len(),
            acc_final.len() <= fill,
            buf@ == acc_final + Seq::new((fill - acc_final.len()) as nat, |q: int| Cell::Dead),
            fill <= total,
        decreases total - fill,
    {
        buf.push(Cell::Dead);
        proof {
            assert(buf@ =~= acc_final + Seq::new(
                (buf@.len() - acc_final.len()) as nat,
                |q: int| Cell::Dead,
            ));
        }
        fill = fill + 1;
    }
    Ok(buf)
}

/// Parse an RLE pattern into a grid.
///
/// Succeeds exactly when the grammar accepts the text, the declared
/// dimensions fit the machine, and the runs keep within them; the grid then
/// holds the drawn cells with the remainder dead.
pub fn parse_rle(input: &str) -> (r: Result<Grid, ParseError>)
    ensures
        r is Ok <==> sp_rle_ok(input@),
        r matches Ok(g) ==> {
            let t = sp_rle_grid(input@).unwrap();
            &&& g.width as int == t.0
            &&& g.height as int == t.1
            &&& g.cells@ == t.2
            &&& g.wf()
        },
        r matches Err(e) ==> {
            &&& e.kind == (if sp_rle(input@) is Some {
                ParseErrorKind::Dimensions
            } else {
                ParseErrorKind::Syntax
            })
            &&& e.at as int == (if sp_rle(input@) is Some {
                0
            } else {
                sp_rle_err_at(input@)
            })
        },
{
    let n = input.unicode_len();
    let c = match rle_comments(input, n, 0) {
        Some(c) => c,
        None => {
            return Err(ParseError { at: n, kind: ParseErrorKind::Syntax });
        },
    };
    let (t, w, h) = match header(input, n, c) {
        Some(x) => x,
        None => {
            return Err(ParseError { at: c, kind: ParseErrorKind::Syntax });
        },
    };
    let u = match crate::plaintext::eol_at(input, n, t) {
        Some(u) => u,
        None => {
            proof {
                assert(false);
            }
            return Err(ParseError { at: t, kind: ParseErrorKind::Syntax });
        },
    };
    let run_list = match cells(input, n, u) {
        Some((_e, v)) => v,
        None => {
            return Err(ParseError { at: u, kind: ParseErrorKind::Syntax });
        },
    };
    match w.checked_mul(h) {
        None => Err(ParseError { at: 0, kind: ParseErrorKind::Dimensions }),
        Some(_total) => {
            match build_grid(w, h, &run_list) {
                Ok(buf) => {
                    proof {
                        lemma_build_len(
                            run_list@,
                            w as int,
                            h as int,
                            run_list@.len() as int,
                        );
                    }
                    Ok(Grid { width: w, height: h, cells: buf })
                },
                Err(e) => Err(e),
            }
        },
    }
}

/// The RLE pattern reader: its sniff and parse entry points.
pub struct RleParser();

impl RleParser {
    /// Cheap detection: the first character is a comment mark or the `x` of
    /// the header.
    pub fn sniff(&self, input: &str) -> (b: bool)
        ensures
            b == sniff_rle(input@),
    {
        if input.unicode_len() == 0 {
            return false;
        }
        let ch = input.get_char(0);
        ch == '#' || ch == 'x'
    }

    /// Parse the text as an RLE pattern.
    pub fn parse(&self, input: &str) -> (r: Result<Grid, ParseError>)
        ensures
            r is Ok <==> sp_rle_ok(input@),
            r matches Ok(g) ==> {
                let t = sp_rle_grid(input@).unwrap();
                &&& g.width as int == t.0
                &&& g.height as int == t.1
                &&& g.cells@ == t.2
                &&& g.wf()
            },
            r matches Err(e) ==> {
                &&& e.kind == (if sp_rle(input@) is Some {
                    ParseErrorKind::Dimensions
                } else {
                    ParseErrorKind::Syntax
                })
                &&& e.at as int == (if sp_rle(input@) is Some {
                    0
                } else {
                    sp_rle_err_at(input@)
                })
            },
    {
        parse_rle(input)
    }
}

} // verus!
