use watch::{Board, Cell};

fn alive(board: &Board, row: u32, col: u32) -> bool {
    board.get_cell(row, col) == Cell::Alive
}

fn live_cells(board: &Board) -> Vec<(u32, u32)> {
    let mut out = Vec::new();
    for row in 0..board.height() {
        for col in 0..board.width() {
            if alive(board, row, col) {
                out.push((row, col));
            }
        }
    }
    out
}

#[test]
fn new_seeds_default_pattern() {
    let board = Board::new(8, 8);
    let cells = board.cells();
    assert_eq!(cells.len(), 64);
    for (i, cell) in cells.iter().enumerate() {
        let expected = i % 2 == 0 || i % 7 == 0;
        assert_eq!(*cell == Cell::Alive, expected, "flat index {}", i);
    }
}

#[test]
fn default_board_is_64_by_64() {
    let board = Board::default();
    assert_eq!(board.width(), 64);
    assert_eq!(board.height(), 64);
    assert!(alive(&board, 0, 0));
    assert!(!alive(&board, 0, 1));
}

#[test]
fn with_alive_sets_exactly_the_listed_cells() {
    let coords = vec![(0, 2), (3, 0)];
    let board = Board::with_alive(4, 5, &coords);
    assert_eq!(live_cells(&board), coords);
}

#[test]
fn glider_steps_once() {
    let coords = vec![(1, 2), (2, 3), (3, 1), (3, 2), (3, 3)];
    let mut board = Board::with_alive(6, 6, &coords);
    board.tick();
    let expected = vec![(2, 1), (2, 3), (3, 2), (3, 3), (4, 2)];
    assert_eq!(live_cells(&board), expected);
}

#[test]
fn block_is_a_still_life() {
    let coords = vec![(1, 1), (1, 2), (2, 1), (2, 2)];
    let mut board = Board::with_alive(4, 4, &coords);
    board.tick();
    assert_eq!(live_cells(&board), coords);
    board.tick();
    assert_eq!(live_cells(&board), coords);
}

#[test]
fn neighbour_count_is_at_most_eight() {
    let board = Board::new(5, 4);
    for row in 0..4 {
        for col in 0..5 {
            assert!(board.num_neighbours(row, col) <= 8);
        }
    }
    let every_cell: Vec<(u32, u32)> =
        (0..3).flat_map(|r| (0..3).map(move |c| (r, c))).collect();
    let full = Board::with_alive(3, 3, &every_cell);
    for row in 0..3 {
        for col in 0..3 {
            assert_eq!(full.num_neighbours(row, col), 8);
        }
    }
}

#[test]
fn corner_cell_wraps_to_all_eight_sides() {
    let (width, height) = (5, 4);
    let board = Board::with_alive(width, height, &vec![(0, 0)]);
    let touched = [
        (height - 1, width - 1),
        (height - 1, 0),
        (height - 1, 1),
        (0, width - 1),
        (0, 1),
        (1, width - 1),
        (1, 0),
        (1, 1),
    ];
    for &(row, col) in &touched {
        assert_eq!(board.num_neighbours(row, col), 1, "at ({}, {})", row, col);
    }
    assert_eq!(board.num_neighbours(0, 0), 0);
}

#[test]
fn one_by_one_board_is_its_own_neighbour() {
    let board = Board::with_alive(1, 1, &vec![(0, 0)]);
    assert_eq!(board.num_neighbours(0, 0), 8);
    let empty = Board::with_alive(1, 1, &vec![]);
    assert_eq!(empty.num_neighbours(0, 0), 0);
}

#[test]
fn nuke_kills_every_cell() {
    let mut board = Board::new(3, 5);
    board.nuke();
    assert!(live_cells(&board).is_empty());
    board.nuke();
    assert!(live_cells(&board).is_empty());

    let mut tiny = Board::new(1, 1);
    tiny.nuke();
    assert!(!alive(&tiny, 0, 0));
}

#[test]
fn make_alive_is_additive() {
    let mut board = Board::with_alive(5, 4, &vec![(2, 0)]);
    board.make_alive(&vec![(0, 0), (1, 2)]);
    board.make_alive(&vec![(2, 2), (3, 4)]);
    assert_eq!(
        live_cells(&board),
        vec![(0, 0), (1, 2), (2, 0), (2, 2), (3, 4)]
    );
}

#[test]
fn randomise_extremes_are_deterministic() {
    let mut board = Board::new(4, 4);
    let draws: Vec<u32> = (0..16).map(|i| i as u32).collect();
    board.randomise(0, &draws);
    assert!(live_cells(&board).is_empty());
    board.randomise(1 << 32, &draws);
    assert_eq!(live_cells(&board).len(), 16);
}

#[test]
fn randomise_compares_each_draw_to_the_threshold() {
    let mut board = Board::new(4, 4);
    let draws: Vec<u32> = (0..16).map(|i| i as u32).collect();
    board.randomise(10, &draws);
    let cells = board.cells();
    for (i, cell) in cells.iter().enumerate() {
        assert_eq!(*cell == Cell::Alive, (i as u64) < 10, "flat index {}", i);
    }
}

#[test]
fn dimensions_never_change() {
    let mut board = Board::new(10, 3);
    assert_eq!(board.width(), 10);
    assert_eq!(board.height(), 3);
    for _ in 0..5 {
        board.tick();
        assert_eq!(board.width(), 10);
        assert_eq!(board.height(), 3);
    }
}

#[test]
fn toggle_cell_flips_one_cell() {
    let mut board = Board::with_alive(3, 3, &vec![(0, 0)]);
    board.toggle_cell(1, 1);
    assert!(alive(&board, 1, 1));
    assert!(alive(&board, 0, 0));
    assert!(!alive(&board, 2, 2));
    board.toggle_cell(1, 1);
    assert!(!alive(&board, 1, 1));
    board.toggle_cell(0, 0);
    assert!(!alive(&board, 0, 0));
}

#[test]
fn cell_toggle_flips_the_state() {
    let mut cell = Cell::Dead;
    cell.toggle();
    assert_eq!(cell, Cell::Alive);
    cell.toggle();
    assert_eq!(cell, Cell::Dead);
}

#[test]
fn render_draws_one_line_per_row() {
    let board = Board::with_alive(3, 2, &vec![(0, 1)]);
    assert_eq!(board.render(), "\u{25fb}\u{25fc}\u{25fb}\n\u{25fb}\u{25fb}\u{25fb}\n");
}

#[test]
fn cells_matches_get_cell() {
    let board = Board::new(6, 3);
    let cells = board.cells();
    assert_eq!(cells.len(), 18);
    for row in 0..3u32 {
        for col in 0..6u32 {
            assert_eq!(cells[(row * 6 + col) as usize], board.get_cell(row, col));
        }
    }
}
