use game_of_life::{
    parse_plaintext, parse_str, Cell, Grid, ParseError, ParseErrorKind, PlaintextParser,
    RleParser,
};
use game_of_life::plaintext::{bang_comment, cell_row, plaintext};
use game_of_life::rle::{cells, hash_comment, header, parse_rle};

const GLIDER: &str = "!Name: Glider\n!\n.O.\n..O\nOOO\n";

#[test]
fn parse_test_parse() {
    let parsed = parse_plaintext(GLIDER);
    let expected = String::from(".O.\n..O\nOOO\n");
    assert_eq!(Ok(expected), parsed.map(|g| g.render()));
}

#[test]
fn plaintext_test_parse() {
    let parsed = parse_plaintext(GLIDER);
    let expected = String::from(".O.\n..O\nOOO\n");
    assert_eq!(Ok(expected), parsed.map(|g| g.render()));
}

#[test]
fn parse_test_plaintext_glider() {
    assert!(GLIDER.ends_with("\n"));
    let parsed = plaintext(GLIDER);
    assert!(parsed.is_some());
    let parsed = parsed.unwrap();
    assert_eq!(3, parsed.len());
}

#[test]
fn plaintext_test_plaintext_glider() {
    assert!(GLIDER.ends_with("\n"));
    let parsed = plaintext(GLIDER);
    assert!(parsed.is_some());
    let parsed = parsed.unwrap();
    assert_eq!(3, parsed.len());
}

#[test]
fn parse_test_plaintext() {
    assert_eq!(Some(vec![vec![Cell::Dead]]), plaintext("!Name: Foo\n!\n."));
}

#[test]
fn plaintext_test_plaintext() {
    assert_eq!(Some(vec![vec![Cell::Dead]]), plaintext("!Name: Foo\n!\n."));
}

#[test]
fn parse_test_plaintext_empty_row() {
    assert_eq!(
        Some(vec![vec![Cell::Dead], vec![], vec![Cell::Alive]]),
        plaintext("!Name: Foo\n!\n.\n\nO\n")
    );
}

#[test]
fn plaintext_test_plaintext_empty_row() {
    assert_eq!(
        Some(vec![vec![Cell::Dead], vec![], vec![Cell::Alive]]),
        plaintext("!Name: Foo\n!\n.\n\nO\n")
    );
}

#[test]
fn parse_test_cell_row_no_endine() {
    // the whole input is consumed: the row ends at position 2
    assert_eq!(Some((2, vec![Cell::Dead, Cell::Alive])), cell_row(".O", 2, 0));
}

#[test]
fn plaintext_test_cell_row_no_endine() {
    assert_eq!(Some((2, vec![Cell::Dead, Cell::Alive])), cell_row(".O", 2, 0));
}

#[test]
fn parse_test_cell_row_endine() {
    // the line ending is left unconsumed: the row ends at position 2
    assert_eq!(Some((2, vec![Cell::Dead, Cell::Alive])), cell_row(".O\n", 3, 0));
}

#[test]
fn plaintext_test_cell_row_endine() {
    assert_eq!(Some((2, vec![Cell::Dead, Cell::Alive])), cell_row(".O\n", 3, 0));
}

#[test]
fn parse_test_cell_row_multiple_rows() {
    // only the first row is read: the rest begins at position 2
    assert_eq!(Some((2, vec![Cell::Dead, Cell::Alive])), cell_row(".O\nO.\n", 6, 0));
}

#[test]
fn plaintext_test_cell_row_multiple_rows() {
    assert_eq!(Some((2, vec![Cell::Dead, Cell::Alive])), cell_row(".O\nO.\n", 6, 0));
}

#[test]
fn parse_test_comment() {
    // the comment runs up to its line ending at position 10
    let input = "!Name: Foo\nO.\n";
    assert_eq!(Some(10), bang_comment(input, input.chars().count(), 0));
}

#[test]
fn plaintext_test_comment() {
    let input = "!Name: Foo\nO.\n";
    assert_eq!(Some(10), bang_comment(input, input.chars().count(), 0));
}

#[test]
fn rle_test_parse() {
    let input = "x = 65, y = 65, rule = B3/S23\n27b2o$27bobo$29bo4b2o$25b4ob2o2bo2bo$25bo2bo3bobob2o$28bobobobo$29b2ob!\n";
    let result = parse_rle(input);
    println!("{:?}", result);
    assert!(result.is_ok());
}

#[test]
fn rle_test_comment() {
    // the comment runs up to its line ending at position 14
    let input = "# x = 1, y = 3\nx = 3, y = 3\n";
    assert_eq!(Some(14), hash_comment(input, input.chars().count(), 0));
}

#[test]
fn test_header_no_rules() {
    // the header stops at its line ending, position 12
    let input = "x = 1, y = 3\nblah blah";
    assert_eq!(Some((12, 1, 3)), header(input, input.chars().count(), 0));
}

#[test]
fn test_header_rejects_leading_blanks() {
    // the `x` must open the header, so that the sniff sees every header
    let input = " x = 1, y = 3\nz";
    assert_eq!(None, header(input, input.chars().count(), 0));
    let e = parse_rle(" x = 1, y = 1\nb!").unwrap_err();
    assert_eq!(e, ParseError { at: 0, kind: ParseErrorKind::Syntax });
}

#[test]
fn test_header_spaces_after_x() {
    let input = "x  =  1,  y = 3\nz";
    assert_eq!(Some((15, 1, 3)), header(input, input.chars().count(), 0));
}

#[test]
fn test_plaintext_rejects_unannounced_input() {
    // the text must open with a comment or a glyph, so that the sniff sees
    // every parseable input
    let e = parse_plaintext("").unwrap_err();
    assert_eq!(e, ParseError { at: 0, kind: ParseErrorKind::Syntax });
    let e = parse_plaintext("\n.O\n").unwrap_err();
    assert_eq!(e, ParseError { at: 0, kind: ParseErrorKind::Syntax });
}

#[test]
fn test_sniff_covers_parse() {
    let p = PlaintextParser();
    let r = RleParser();
    let inputs = [
        "!\n.O.\n..O\nOOO\n",
        ".O\n",
        "O",
        "x = 2, y = 1\nbo!\n",
        "#c\nx = 1, y = 1\nb!",
        "",
        "\n.O\n",
        " x = 1, y = 1\nb!",
        "zzz",
    ];
    for input in inputs {
        if p.parse(input).is_ok() {
            assert!(p.sniff(input));
        }
        if r.parse(input).is_ok() {
            assert!(r.sniff(input));
        }
    }
}

#[test]
fn test_cells() {
    let input = "2b2o$bobo!";
    let output = vec![
        (2, 'b'),
        (2, 'o'),
        (1, '$'),
        (1, 'b'),
        (1, 'o'),
        (1, 'b'),
        (1, 'o'),
    ];
    assert_eq!(Some((10, output)), cells(input, 10, 0));
}

#[test]
fn test_rle_round_trip() {
    let parsed = parse_rle("x = 2, y = 1\nbo!\n").unwrap();
    assert_eq!(parsed.width, 2);
    assert_eq!(parsed.height, 1);
    assert_eq!(parsed.cells, vec![Cell::Dead, Cell::Alive]);
}

#[test]
fn test_glider_grid_cells() {
    let g = parse_plaintext("!\n.O.\n..O\nOOO\n").unwrap();
    assert_eq!(g.width, 3);
    assert_eq!(g.height, 3);
    // alive at (col, row): (1,0), (2,1), (0,2), (1,2), (2,2)
    let alive: Vec<(usize, usize)> = (0..3)
        .flat_map(|y| (0..3).map(move |x| (x, y)))
        .filter(|&(x, y)| g.cells[y * 3 + x] == Cell::Alive)
        .collect();
    assert_eq!(alive, vec![(1, 0), (2, 1), (0, 2), (1, 2), (2, 2)]);
}

#[test]
fn test_parse_str_dispatch() {
    // a plaintext pattern and an RLE pattern of the same shape parse alike
    let a = parse_str("!\n.O\n").unwrap();
    let b = parse_str("x = 2, y = 1\nbo!\n").unwrap();
    assert_eq!(a, b);
}

#[test]
fn test_parse_str_unrecognized() {
    let e = parse_str("zzz").unwrap_err();
    assert_eq!(e, ParseError { at: 0, kind: ParseErrorKind::UnrecognizedFormat });
}

#[test]
fn test_plaintext_syntax_error() {
    // the rows end at the line ending before the stray character
    let e = parse_plaintext(".O\nx").unwrap_err();
    assert_eq!(e, ParseError { at: 3, kind: ParseErrorKind::Syntax });
}

#[test]
fn test_plaintext_unclosed_comment() {
    // the comment block runs to the end of the input and is never closed
    let e = parse_plaintext("!abc").unwrap_err();
    assert_eq!(e, ParseError { at: 4, kind: ParseErrorKind::Syntax });
}

#[test]
fn test_rle_missing_height() {
    // the header fails where it begins
    let e = parse_rle("x = 1\nb!").unwrap_err();
    assert_eq!(e, ParseError { at: 0, kind: ParseErrorKind::Syntax });
}

#[test]
fn test_rle_unterminated_runs() {
    // the run stream starts right after the header line and never meets `!`
    let e = parse_rle("x = 1, y = 1\nb").unwrap_err();
    assert_eq!(e, ParseError { at: 13, kind: ParseErrorKind::Syntax });
}

#[test]
fn test_rle_overrun_is_dimensions_error() {
    // two cells declared into a 1 x 1 grid
    let e = parse_rle("x = 1, y = 1\nbb!").unwrap_err();
    assert_eq!(e.kind, ParseErrorKind::Dimensions);
}

#[test]
fn test_rle_huge_count_rejected() {
    let e = parse_rle("x = 3, y = 1\n99999999999999999999o!").unwrap_err();
    assert_eq!(e.kind, ParseErrorKind::Syntax);
}

#[test]
fn test_rle_row_advance_pads() {
    // `$` pads the rest of the row; `2$` leaves a whole blank row behind it
    let g = parse_rle("x = 2, y = 3\no$2$2o!\n").unwrap();
    assert_eq!(
        g.cells,
        vec![
            Cell::Alive,
            Cell::Dead,
            Cell::Dead,
            Cell::Dead,
            Cell::Alive,
            Cell::Alive,
        ]
    );
}

#[test]
fn test_rle_trailing_text_ignored() {
    let g = parse_rle("x = 1, y = 1\no!\nanything at all").unwrap();
    assert_eq!(g.cells, vec![Cell::Alive]);
}

#[test]
fn test_plaintext_pads_short_rows() {
    let g = parse_plaintext("!\nO\nOOO\n").unwrap();
    assert_eq!(g.width, 3);
    assert_eq!(g.height, 2);
    assert_eq!(
        g.cells,
        vec![
            Cell::Alive,
            Cell::Dead,
            Cell::Dead,
            Cell::Alive,
            Cell::Alive,
            Cell::Alive,
        ]
    );
}

#[test]
fn test_sniffs() {
    let p = PlaintextParser();
    let r = RleParser();
    assert!(p.sniff("!c\n.O\n"));
    assert!(p.sniff(".O\n"));
    assert!(p.sniff("O\n"));
    assert!(!p.sniff("x = 1, y = 1\nb!"));
    assert!(r.sniff("x = 1, y = 1\nb!"));
    assert!(r.sniff("#c\nx = 1, y = 1\nb!"));
    assert!(!r.sniff(".O\n"));
    assert!(!p.sniff(""));
    assert!(!r.sniff(""));
}

#[test]
fn test_grid_render() {
    let g = Grid {
        width: 2,
        height: 2,
        cells: vec![Cell::Alive, Cell::Dead, Cell::Dead, Cell::Alive],
    };
    assert_eq!(g.render(), String::from("O.\n.O\n"));
}
