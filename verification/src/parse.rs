//! Format dispatch: try each pattern reader in a fixed order and use the
//! first whose sniff succeeds.

use vstd::prelude::*;
use crate::grid::{Grid, ParseError, ParseErrorKind};
use crate::plaintext::{
    sniff_plaintext, sp_grid_cells, sp_max_width, sp_plaintext, sp_plaintext_err_at,
    sp_plaintext_ok, PlaintextParser,
};
use crate::rle::{sniff_rle, sp_rle, sp_rle_err_at, sp_rle_grid, sp_rle_ok, RleParser};

verus! {

/// The grid that dispatched parsing yields, as `(width, height, cells)`:
/// the plaintext reader's when its sniff succeeds, otherwise the RLE
/// reader's when its sniff succeeds, otherwise nothing.
pub open spec fn sp_parse_grid(s: Seq<char>) -> Option<(int, int, Seq<crate::cell::Cell>)> {
    if sniff_plaintext(s) {
        if sp_plaintext_ok(s) {
            let rows = sp_plaintext(s).unwrap();
            Some((sp_max_width(rows), rows.len() as int, sp_grid_cells(rows, sp_max_width(rows))))
        } else {
            None
        }
    } else if sniff_rle(s) {
        sp_rle_grid(s)
    } else {
        None
    }
}

/// The failure kind dispatched parsing reports: a distinct marker when no
/// format recognises the text, the chosen reader's kind otherwise.
pub open spec fn sp_parse_err_kind(s: Seq<char>) -> ParseErrorKind {
    if sniff_plaintext(s) {
        if sp_plaintext(s) is Some {
            ParseErrorKind::Dimensions
        } else {
            ParseErrorKind::Syntax
        }
    } else if sniff_rle(s) {
        if sp_rle(s) is Some {
            ParseErrorKind::Dimensions
        } else {
            ParseErrorKind::Syntax
        }
    } else {
        ParseErrorKind::UnrecognizedFormat
    }
}

/// Where dispatched parsing reports its failure: the chosen reader's
/// position, or the very start when no format recognises the text.
pub open spec fn sp_parse_err_at(s: Seq<char>) -> int {
    if sniff_plaintext(s) {
        if sp_plaintext(s) is Some {
            0
        } else {
            sp_plaintext_err_at(s)
        }
    } else if sniff_rle(s) {
        if sp_rle(s) is Some {
            0
        } else {
            sp_rle_err_at(s)
        }
    } else {
        0
    }
}

/// Parse a pattern text in whichever format announces itself first: the
/// plaintext reader is consulted before the RLE reader, and the first whose
/// sniff succeeds does the parsing.  When neither recognises the text the
/// result is the distinct unrecognized-format error.
pub fn parse_str(input: &str) -> (r: Result<Grid, ParseError>)
    ensures
        r is Ok <==> sp_parse_grid(input@) is Some,
        r matches Ok(g) ==> {
            let t = sp_parse_grid(input@).unwrap();
            &&& g.width as int == t.0
            &&& g.height as int == t.1
            &&& g.cells@ == t.2
            &&& g.wf()
        },
        r matches Err(e) ==> e.kind == sp_parse_err_kind(input@) && e.at as int
            == sp_parse_err_at(input@),
{
    let plaintext_reader = PlaintextParser();
    if plaintext_reader.sniff(input) {
        return crate::plaintext::parse_plaintext(input);
    }
    let rle_reader = RleParser();
    if rle_reader.sniff(input) {
        return crate::rle::parse_rle(input);
    }
    Err(ParseError { at: 0, kind: ParseErrorKind::UnrecognizedFormat })
}

} // verus!
