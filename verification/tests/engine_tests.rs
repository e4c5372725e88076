//! The engine takes the hardened policy throughout: a play that is out of
//! range, out of the legal region, on an occupied cell, by the wrong side,
//! or after the game ended is rejected with its own error and changes
//! nothing; and a sub-grid's won bit is set the moment a line of it is
//! completed, closing its remaining cells.

use uttt_engine::{GameState, GridPosition, PlayError, UTTTGame};

fn pos(grid: u16, pos_in_grid: u16) -> GridPosition {
    GridPosition { grid, pos_in_grid }
}

#[test]
fn new_game_starts_with_crosses_turn() {
    let game = UTTTGame::new();
    assert_eq!(game.state(), GameState::CrossesTurn);
    assert!(!game.is_over());
}

#[test]
fn win_patterns_rows() {
    let game = UTTTGame::new();
    assert!(game.check_single_win(0b000_000_111)); // top row {0,1,2}
    assert!(game.check_single_win(0b000_111_000)); // middle row {3,4,5}
    assert!(game.check_single_win(0b111_000_000)); // bottom row {6,7,8}
}

#[test]
fn win_patterns_columns() {
    let game = UTTTGame::new();
    assert!(game.check_single_win(0b001_001_001)); // left column {0,3,6}
    assert!(game.check_single_win(0b010_010_010)); // middle column {1,4,7}
    assert!(game.check_single_win(0b100_100_100)); // right column {2,5,8}
}

#[test]
fn win_patterns_diagonals() {
    let game = UTTTGame::new();
    assert!(game.check_single_win(0b100_010_001)); // main diagonal {0,4,8}
    assert!(game.check_single_win(0b001_010_100)); // anti-diagonal {2,4,6}
}

#[test]
fn two_of_a_line_is_no_win() {
    let game = UTTTGame::new();
    assert!(!game.check_single_win(0));
    assert!(!game.check_single_win(0b000_000_011)); // two of the top row
    assert!(!game.check_single_win(0b000_010_001)); // two of the diagonal
    assert!(!game.check_single_win(0b000_001_001)); // two of the left column
    assert!(!game.check_single_win(0b000_011_011)); // two of several lines
}

#[test]
fn first_move_sends_opponent_to_named_subgrid() {
    let mut game = UTTTGame::new();
    let moves = game.play(pos(1, 0), true).expect("legal opening move");
    assert_eq!(game.state(), GameState::NoughtsTurn);
    let expected: Vec<GridPosition> = (0..9).map(|p| pos(0, p)).collect();
    assert_eq!(moves, expected);
}

#[test]
fn second_move_sends_back_by_position_played() {
    let mut game = UTTTGame::new();
    game.play(pos(1, 0), true).expect("legal opening move");
    let moves = game.play(pos(0, 4), false).expect("legal reply in sub-grid 0");
    assert_eq!(game.state(), GameState::CrossesTurn);
    // position 4 sends the opponent to sub-grid 4, which is still empty
    let expected: Vec<GridPosition> = (0..9).map(|p| pos(4, p)).collect();
    assert_eq!(moves, expected);
}

#[test]
fn playing_twice_in_a_row_is_rejected() {
    let mut game = UTTTGame::new();
    game.play(pos(1, 0), true).expect("legal opening move");
    game.play(pos(0, 4), false).expect("legal reply");
    // noughts tries to play again out of turn
    assert_eq!(game.play(pos(4, 0), false), Err(PlayError::WrongTurn));
    assert_eq!(game.state(), GameState::CrossesTurn);
}

#[test]
fn out_of_range_positions_are_rejected() {
    let mut game = UTTTGame::new();
    assert_eq!(game.play(pos(9, 0), true), Err(PlayError::OutOfRange));
    assert_eq!(game.play(pos(0, 9), true), Err(PlayError::OutOfRange));
    assert_eq!(game.state(), GameState::CrossesTurn);
}

#[test]
fn moves_outside_the_legal_region_are_rejected() {
    let mut game = UTTTGame::new();
    game.play(pos(0, 0), true).expect("legal opening move");
    // noughts were sent to sub-grid 0 and may not play elsewhere
    assert_eq!(game.play(pos(1, 1), false), Err(PlayError::OutOfRegion));
}

#[test]
fn occupied_cells_are_rejected() {
    let mut game = UTTTGame::new();
    game.play(pos(0, 0), true).expect("legal opening move");
    assert_eq!(game.play(pos(0, 0), false), Err(PlayError::CellOccupied));
}

#[test]
fn winning_a_subgrid_closes_its_remaining_cells() {
    let mut game = UTTTGame::new();
    // crosses assemble the middle row {3,4,5} of sub-grid 0 while noughts
    // keep sending them back with position-0 replies
    game.play(pos(0, 3), true).expect("legal");
    game.play(pos(3, 0), false).expect("legal");
    game.play(pos(0, 4), true).expect("legal");
    game.play(pos(4, 0), false).expect("legal");
    let after_win = game.play(pos(0, 5), true).expect("legal winning move");
    // sub-grid 0 is now won by crosses; the opponent was sent to sub-grid 5
    assert_eq!(game.state(), GameState::NoughtsTurn);
    let expected: Vec<GridPosition> = (0..9).map(|p| pos(5, p)).collect();
    assert_eq!(after_win, expected);
    // a reply aimed back at the won sub-grid widens the region to the
    // whole board, and none of sub-grid 0's six empty cells is offered
    let moves = game.play(pos(5, 0), false).expect("legal reply");
    assert_eq!(moves.len(), 69);
    assert!(moves.iter().all(|m| m.grid != 0));
    assert_eq!(game.state(), GameState::CrossesTurn);
}

#[test]
fn playing_into_a_won_subgrid_is_rejected() {
    let mut game = UTTTGame::new();
    game.play(pos(0, 3), true).expect("legal");
    game.play(pos(3, 0), false).expect("legal");
    game.play(pos(0, 4), true).expect("legal");
    game.play(pos(4, 0), false).expect("legal");
    game.play(pos(0, 5), true).expect("legal winning move");
    game.play(pos(5, 0), false).expect("legal reply");
    // the whole board is open, but sub-grid 0 is won and stays closed
    assert_eq!(game.play(pos(0, 0), true), Err(PlayError::OutOfRegion));
}

#[test]
fn board_renders_marks_and_free_cells() {
    let mut game = UTTTGame::new();
    game.play(pos(0, 3), true).expect("legal");
    game.play(pos(3, 0), false).expect("legal");
    // sub-grid 0 position 3 is drawn at row 1, column 0
    assert_eq!(game.cell_char(1, 0), 'X');
    // sub-grid 3 position 0 is drawn at row 3, column 0
    assert_eq!(game.cell_char(3, 0), 'O');
    assert_eq!(game.cell_char(8, 8), '.');
    assert_eq!(game.cell_char(0, 0), '.');
}
