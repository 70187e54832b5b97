use game_of_life::{
    parse_plaintext, Cell, DimensionMismatch, EdgeBehavior, ParseErrorKind, Timer, Universe,
};

fn universe_from_alive(width: u32, height: u32, alive: &[(u32, u32)]) -> Universe {
    let mut u = Universe::new(width, height);
    u.set_cells(alive);
    u
}

fn alive_coords(u: &Universe) -> Vec<(u32, u32)> {
    let w = u.width();
    let h = u.height();
    let cells = u.get_cells();
    let mut out = Vec::new();
    for row in 0..h {
        for col in 0..w {
            if cells[(row * w + col) as usize] == Cell::Alive {
                out.push((row, col));
            }
        }
    }
    out
}

#[test]
fn test_new_universe_is_dead() {
    let u = Universe::new(4, 3);
    assert_eq!(u.width(), 4);
    assert_eq!(u.height(), 3);
    assert_eq!(u.get_cells().len(), 12);
    assert!(u.get_cells().iter().all(|&c| c == Cell::Dead));
    assert_eq!(u.edge_behavior(), EdgeBehavior::Wrap);
    assert_eq!(u.cells_born_count(), 0);
    assert_eq!(u.cells_died_count(), 0);
}

#[test]
fn test_of_cells_adopts_buffer() {
    let cells = vec![Cell::Alive, Cell::Dead, Cell::Dead, Cell::Alive];
    let u = Universe::of_cells(2, 2, cells.clone()).unwrap();
    assert_eq!(u.get_cells(), cells.as_slice());
}

#[test]
fn test_of_cells_dimension_mismatch() {
    let e = Universe::of_cells(2, 2, vec![Cell::Dead; 3]).unwrap_err();
    assert_eq!(e, DimensionMismatch { expected: 4, actual: 3 });
}

#[test]
fn test_cell_toggle() {
    let mut c = Cell::Dead;
    c.toggle();
    assert_eq!(c, Cell::Alive);
    c.toggle();
    assert_eq!(c, Cell::Dead);
    assert_eq!(Cell::Alive.live_count(), 1);
    assert_eq!(Cell::Dead.live_count(), 0);
}

#[test]
fn test_blinker_oscillates() {
    // a horizontal blinker centred in a 5x5 grid under the fixed-dead policy
    let mut u = universe_from_alive(5, 5, &[(2, 1), (2, 2), (2, 3)]);
    u.set_edge_behavior(EdgeBehavior::Dead);
    u.tick();
    assert_eq!(alive_coords(&u), vec![(1, 2), (2, 2), (3, 2)]);
    u.tick();
    assert_eq!(alive_coords(&u), vec![(2, 1), (2, 2), (2, 3)]);
}

#[test]
fn test_tick_preserves_length() {
    let mut u = universe_from_alive(5, 5, &[(2, 1), (2, 2), (2, 3)]);
    assert_eq!(u.get_cells().len(), 25);
    for _ in 0..4 {
        u.tick();
        assert_eq!(u.get_cells().len(), 25);
    }
}

#[test]
fn test_tick_deterministic() {
    let mut a = universe_from_alive(6, 6, &[(1, 1), (1, 2), (2, 1), (3, 4)]);
    let mut b = universe_from_alive(6, 6, &[(1, 1), (1, 2), (2, 1), (3, 4)]);
    a.tick();
    b.tick();
    assert_eq!(a.get_cells(), b.get_cells());
}

#[test]
fn test_glider_step_wrap() {
    // parse the glider, seed it at the top left of an 8x8 universe, and step
    let g = parse_plaintext("!\n.O.\n..O\nOOO\n").unwrap();
    assert_eq!((g.width, g.height), (3, 3));
    let mut alive: Vec<(u32, u32)> = Vec::new();
    for y in 0..3u32 {
        for x in 0..3u32 {
            if g.cells[(y * 3 + x) as usize] == Cell::Alive {
                alive.push((y, x));
            }
        }
    }
    let mut u = universe_from_alive(8, 8, &alive);
    assert_eq!(u.edge_behavior(), EdgeBehavior::Wrap);
    u.tick();
    assert_eq!(alive_coords(&u), vec![(1, 0), (1, 2), (2, 1), (2, 2), (3, 1)]);
}

#[test]
fn test_tick_delta_reports_changes() {
    let mut u = universe_from_alive(5, 5, &[(2, 1), (2, 2), (2, 3)]);
    u.set_edge_behavior(EdgeBehavior::Dead);
    u.tick_delta();
    // born at (1,2) and (3,2); died at (2,1) and (2,3), in scan order
    assert_eq!(u.cells_born(), &vec![1, 2, 3, 2]);
    assert_eq!(u.cells_died(), &vec![2, 1, 2, 3]);
    assert_eq!(u.cells_born_count(), 2);
    assert_eq!(u.cells_died_count(), 2);
    // the produced generation is the same one tick produces
    assert_eq!(alive_coords(&u), vec![(1, 2), (2, 2), (3, 2)]);
    // the next delta-tracked transition clears the sequences first
    u.tick_delta();
    assert_eq!(u.cells_born(), &vec![2, 1, 2, 3]);
    assert_eq!(u.cells_died(), &vec![1, 2, 3, 2]);
}

#[test]
fn test_toggle_round_trip() {
    let mut u = Universe::new(4, 4);
    let before = u.get_cells().to_vec();
    u.toggle_cell(1, 3);
    assert_eq!(u.get_cells()[1 * 4 + 3], Cell::Alive);
    u.toggle_cell(1, 3);
    assert_eq!(u.get_cells(), before.as_slice());
    // exactly two entries, one in each sequence, in toggle order
    assert_eq!(u.cells_born(), &vec![1, 3]);
    assert_eq!(u.cells_died(), &vec![1, 3]);
    assert_eq!(u.cells_born_count(), 1);
    assert_eq!(u.cells_died_count(), 1);
}

#[test]
fn test_toggle_appends_without_clearing() {
    let mut u = Universe::new(3, 3);
    u.toggle_cell(0, 0);
    u.toggle_cell(2, 2);
    assert_eq!(u.cells_born(), &vec![0, 0, 2, 2]);
    assert_eq!(u.cells_died(), &Vec::<u32>::new());
}

#[test]
fn test_edge_policy_equivalence_off_border() {
    // a blinker away from the border: wrap and fixed-dead agree
    let mut a = universe_from_alive(5, 5, &[(2, 1), (2, 2), (2, 3)]);
    a.set_edge_behavior(EdgeBehavior::Wrap);
    let mut b = universe_from_alive(5, 5, &[(2, 1), (2, 2), (2, 3)]);
    b.set_edge_behavior(EdgeBehavior::Dead);
    a.tick();
    b.tick();
    assert_eq!(a.get_cells(), b.get_cells());
}

#[test]
fn test_fixed_alive_boundary_differs() {
    // under the fixed-alive policy the outside presses on the border: an
    // edge cell with three dead in-range neighbors is born
    let mut u = Universe::new(5, 5);
    u.set_edge_behavior(EdgeBehavior::Alive);
    u.tick();
    assert_eq!(u.get_cells()[1], Cell::Alive);
    // while a corner sees five outside neighbors and stays dead
    assert_eq!(u.get_cells()[0], Cell::Dead);
}

#[test]
fn test_wrap_policy_joins_edges() {
    // a horizontal blinker crossing the left edge of the middle row
    let mut u = universe_from_alive(5, 5, &[(2, 4), (2, 0), (2, 1)]);
    u.tick();
    assert_eq!(alive_coords(&u), vec![(1, 0), (2, 0), (3, 0)]);
}

#[test]
fn test_render_expected_text() {
    let mut u = Universe::new(2, 2);
    u.toggle_cell(0, 0);
    u.toggle_cell(1, 1);
    assert_eq!(u.render(), String::from("\u{25fc}\u{25fb}\n\u{25fb}\u{25fc}\n"));
}

#[test]
fn test_render_idempotent() {
    let mut u = universe_from_alive(4, 4, &[(0, 1), (1, 2), (3, 3)]);
    u.set_edge_behavior(EdgeBehavior::Dead);
    let first = u.render();
    let second = u.render();
    assert_eq!(first, second);
    assert_eq!(alive_coords(&u), vec![(0, 1), (1, 2), (3, 3)]);
}

#[test]
fn test_reset_blank() {
    let mut u = universe_from_alive(3, 3, &[(0, 0), (1, 1), (2, 2)]);
    u.reset_blank();
    assert!(u.get_cells().iter().all(|&c| c == Cell::Dead));
    assert_eq!(u.width(), 3);
    assert_eq!(u.height(), 3);
}

#[test]
fn test_reset_fancy_formula() {
    let mut u = Universe::new(3, 3);
    u.reset_fancy();
    // alive exactly at i % 2 == 0 or i % 7 == 0
    let expected = vec![
        Cell::Alive,
        Cell::Dead,
        Cell::Alive,
        Cell::Dead,
        Cell::Alive,
        Cell::Dead,
        Cell::Alive,
        Cell::Alive,
        Cell::Alive,
    ];
    assert_eq!(u.get_cells(), expected.as_slice());
}

#[test]
fn test_reset_random_follows_coins() {
    let mut u = Universe::new(2, 2);
    u.reset_random(&[true, false, false, true]);
    assert_eq!(
        u.get_cells(),
        [Cell::Alive, Cell::Dead, Cell::Dead, Cell::Alive].as_slice()
    );
}

#[test]
fn test_set_width_resets() {
    let mut u = universe_from_alive(3, 3, &[(1, 1)]);
    u.set_width(5);
    assert_eq!(u.width(), 5);
    assert_eq!(u.height(), 3);
    assert_eq!(u.get_cells().len(), 15);
    assert!(u.get_cells().iter().all(|&c| c == Cell::Dead));
}

#[test]
fn test_set_height_resets() {
    let mut u = universe_from_alive(3, 3, &[(1, 1)]);
    u.set_height(2);
    assert_eq!(u.width(), 3);
    assert_eq!(u.height(), 2);
    assert_eq!(u.get_cells().len(), 6);
    assert!(u.get_cells().iter().all(|&c| c == Cell::Dead));
}

#[test]
fn test_set_edge_behavior() {
    let mut u = Universe::new(2, 2);
    u.set_edge_behavior(EdgeBehavior::Alive);
    assert_eq!(u.edge_behavior(), EdgeBehavior::Alive);
    u.set_edge_behavior(EdgeBehavior::Dead);
    assert_eq!(u.edge_behavior(), EdgeBehavior::Dead);
}

#[test]
fn test_cells_view_matches_get_cells() {
    let u = universe_from_alive(3, 2, &[(1, 2)]);
    assert_eq!(u.cells().as_slice(), u.get_cells());
    assert_eq!(u.cells().len(), 6);
}

#[test]
fn test_of_file_plaintext() {
    let u = Universe::of_file(b"!\n.O.\n..O\nOOO\n").unwrap();
    assert_eq!((u.width(), u.height()), (3, 3));
    assert_eq!(alive_coords(&u), vec![(0, 1), (1, 2), (2, 0), (2, 1), (2, 2)]);
}

#[test]
fn test_of_file_rle() {
    let u = Universe::of_file(b"x = 2, y = 1\nbo!\n").unwrap();
    assert_eq!((u.width(), u.height()), (2, 1));
    assert_eq!(u.get_cells(), [Cell::Dead, Cell::Alive].as_slice());
}

#[test]
fn test_of_file_invalid_utf8() {
    let e = Universe::of_file(&[0xff, 0xfe]).unwrap_err();
    assert_eq!(e.kind, ParseErrorKind::InvalidUtf8);
}

#[test]
fn test_of_file_unrecognized() {
    let e = Universe::of_file(b"hello").unwrap_err();
    assert_eq!(e.kind, ParseErrorKind::UnrecognizedFormat);
}

#[test]
fn test_wrap_degenerate_double_count() {
    // with one row, the wrapped offsets reach the same physical neighbor
    // twice: the lone live cell counts itself twice and survives forever
    let mut u = universe_from_alive(2, 1, &[(0, 1)]);
    u.tick();
    assert_eq!(alive_coords(&u), vec![(0, 1)]);
    u.tick();
    assert_eq!(alive_coords(&u), vec![(0, 1)]);
}

#[test]
fn test_empty_universe() {
    let mut u = Universe::new(0, 0);
    assert_eq!(u.get_cells().len(), 0);
    u.tick();
    assert_eq!(u.get_cells().len(), 0);
    assert_eq!(u.render(), String::new());
}

#[test]
fn test_reset_from_file() {
    let mut u = Universe::new(2, 2);
    u.toggle_cell(0, 0);
    u.reset_from_file(b"x = 2, y = 1\nbo!\n").unwrap();
    assert_eq!((u.width(), u.height()), (2, 1));
    assert_eq!(u.get_cells(), [Cell::Dead, Cell::Alive].as_slice());
    // a failed parse reports its kind and leaves the universe untouched
    let e = u.reset_from_file(b"zzz").unwrap_err();
    assert_eq!(e.kind, ParseErrorKind::UnrecognizedFormat);
    assert_eq!((u.width(), u.height()), (2, 1));
    assert_eq!(u.get_cells(), [Cell::Dead, Cell::Alive].as_slice());
}

#[test]
fn test_timer_keeps_label() {
    let t = Timer::new("tick");
    assert_eq!(t.name, "tick");
}
