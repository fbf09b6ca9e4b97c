use tetris_core::block::{BlockType, Cell};
use tetris_core::game::{Game, BOARD_HEIGHT, BOARD_WIDTH};

fn block_cells(g: &Game) -> Vec<Vec<bool>> {
    g.current_block().expect("a piece is active").cells().clone()
}

#[test]
fn new_game_is_empty_ten_by_twenty() {
    let g = Game::new();
    assert_eq!(g.board_width(), 10);
    assert_eq!(g.board_height(), 20);
    assert_eq!(BOARD_WIDTH, 10);
    assert_eq!(BOARD_HEIGHT, 20);
    for r in 0..20 {
        for c in 0..10 {
            assert_eq!(g.cell(r, c), Cell::Empty);
        }
    }
    assert!(g.current_block().is_none());
    assert_eq!(g.current_pos(), (0, 0));
}

#[test]
fn moves_without_piece_do_nothing() {
    let mut g = Game::new();
    g.move_left();
    g.move_right();
    g.move_down();
    g.rotate();
    assert!(g.current_block().is_none());
    assert_eq!(g.current_pos(), (0, 0));
    for r in 0..20 {
        for c in 0..10 {
            assert_eq!(g.cell(r, c), Cell::Empty);
        }
    }
}

#[test]
fn spawn_test_mino_places_t_at_top_center() {
    let mut g = Game::new();
    g.spawn_test_mino();
    let b = g.current_block().expect("a piece is active");
    assert_eq!(b.block_type(), BlockType::T);
    assert_eq!(b.color(), 2);
    assert_eq!(g.current_pos(), (3, 0));
}

#[test]
fn spawn_replaces_active_piece() {
    let mut g = Game::new();
    g.spawn_test_mino();
    g.move_right();
    g.move_down();
    g.spawn(BlockType::I);
    let b = g.current_block().expect("a piece is active");
    assert_eq!(b.block_type(), BlockType::I);
    assert_eq!(b.size(), 4);
    assert_eq!(g.current_pos(), (3, 0));
}

#[test]
fn move_left_stops_at_wall() {
    let mut g = Game::new();
    g.spawn_test_mino();
    g.move_left();
    assert_eq!(g.current_pos(), (2, 0));
    g.move_left();
    g.move_left();
    assert_eq!(g.current_pos(), (0, 0));
    g.move_left();
    assert_eq!(g.current_pos(), (0, 0));
}

#[test]
fn move_right_stops_when_box_reaches_wall() {
    let mut g = Game::new();
    g.spawn_test_mino();
    for expected in 4..=7 {
        g.move_right();
        assert_eq!(g.current_pos(), (expected, 0));
    }
    // x + 3 == 10: the bounding box touches the right wall.
    g.move_right();
    assert_eq!(g.current_pos(), (7, 0));
}

#[test]
fn move_right_uses_box_size_of_i() {
    let mut g = Game::new();
    g.spawn(BlockType::I);
    for _ in 0..10 {
        g.move_right();
    }
    assert_eq!(g.current_pos(), (6, 0));
}

#[test]
fn move_down_stops_when_box_reaches_floor() {
    let mut g = Game::new();
    g.spawn_test_mino();
    for expected in 1..=17 {
        g.move_down();
        assert_eq!(g.current_pos(), (3, expected));
    }
    g.move_down();
    assert_eq!(g.current_pos(), (3, 17));
}

#[test]
fn move_down_ignores_filled_cells() {
    let mut g = Game::new();
    g.test_fill();
    g.spawn_test_mino();
    g.move_left();
    g.move_left();
    g.move_left();
    g.move_down();
    g.move_down();
    assert_eq!(g.current_pos(), (0, 2));
}

#[test]
fn rotate_turns_active_piece_in_place() {
    let mut g = Game::new();
    g.spawn_test_mino();
    g.rotate();
    assert_eq!(g.current_pos(), (3, 0));
    assert_eq!(
        block_cells(&g),
        vec![
            vec![false, true, false],
            vec![false, true, true],
            vec![false, true, false],
        ]
    );
    for _ in 0..3 {
        g.rotate();
    }
    assert_eq!(
        block_cells(&g),
        vec![
            vec![false, true, false],
            vec![true, true, true],
            vec![false, false, false],
        ]
    );
}

#[test]
fn test_fill_sets_three_diagonal_cells() {
    let mut g = Game::new();
    g.test_fill();
    for r in 0..20 {
        for c in 0..10 {
            let expected = match (r, c) {
                (0, 0) => Cell::Filled(0),
                (1, 1) => Cell::Filled(1),
                (2, 2) => Cell::Filled(2),
                _ => Cell::Empty,
            };
            assert_eq!(g.cell(r, c), expected);
        }
    }
    assert!(g.current_block().is_none());
    assert_eq!(g.current_pos(), (0, 0));
}

#[test]
fn test_fill_twice_is_the_same() {
    let mut g = Game::new();
    g.spawn_test_mino();
    g.test_fill();
    g.test_fill();
    assert_eq!(g.cell(0, 0), Cell::Filled(0));
    assert_eq!(g.cell(1, 1), Cell::Filled(1));
    assert_eq!(g.cell(2, 2), Cell::Filled(2));
    assert_eq!(g.cell(0, 1), Cell::Empty);
    assert_eq!(g.current_pos(), (3, 0));
}

#[test]
fn spawn_move_right_three_times_then_rotate() {
    let mut g = Game::new();
    g.spawn_test_mino();
    assert_eq!(g.current_pos(), (3, 0));
    g.move_right();
    g.move_right();
    g.move_right();
    g.rotate();
    assert_eq!(g.current_pos(), (6, 0));
    assert_eq!(
        block_cells(&g),
        vec![
            vec![false, true, false],
            vec![false, true, true],
            vec![false, true, false],
        ]
    );
}

fn sorted_piece_cells(g: &Game) -> Vec<(usize, usize)> {
    let mut cells = g.piece_cells();
    cells.sort();
    cells
}

#[test]
fn piece_cells_empty_without_piece() {
    let g = Game::new();
    assert!(g.piece_cells().is_empty());
}

#[test]
fn piece_cells_of_spawned_t() {
    let mut g = Game::new();
    g.spawn_test_mino();
    assert_eq!(sorted_piece_cells(&g), vec![(3, 1), (4, 0), (4, 1), (5, 1)]);
}

#[test]
fn piece_cells_follow_moves_and_rotation() {
    let mut g = Game::new();
    g.spawn_test_mino();
    g.move_right();
    g.move_down();
    g.rotate();
    assert_eq!(sorted_piece_cells(&g), vec![(5, 1), (5, 2), (5, 3), (6, 2)]);
}
