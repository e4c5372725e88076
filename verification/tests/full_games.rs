use uttt_engine::{GameState, GridPosition, PlayError, UTTTGame};

fn run(game: &mut UTTTGame, script: &[(u16, u16, bool)]) -> Vec<GridPosition> {
    let mut last = Vec::new();
    for &(grid, pos_in_grid, cross) in script {
        last = game
            .play(GridPosition { grid, pos_in_grid }, cross)
            .expect("every scripted move is legal");
    }
    last
}

/// A complete game in which every one of the 81 cells is filled and
/// neither side ever lines up three won sub-grids on the meta-grid.
const TIE_GAME: [(u16, u16, bool); 81] = [
        (7, 4, true), (4, 6, false), (6, 4, true), (4, 5, false),
        (5, 7, true), (7, 3, false), (3, 7, true), (7, 6, false),
        (6, 3, true), (3, 8, false), (8, 4, true), (4, 3, false),
        (3, 0, true), (0, 1, false), (1, 5, true), (5, 2, false),
        (2, 6, true), (6, 1, false), (1, 8, true), (8, 5, false),
        (5, 0, true), (0, 6, false), (6, 6, true), (6, 8, false),
        (8, 8, true), (8, 7, false), (7, 1, true), (1, 0, false),
        (0, 5, true), (5, 3, false), (3, 2, true), (2, 0, false),
        (0, 4, true), (4, 1, false), (1, 4, true), (4, 8, false),
        (8, 2, true), (2, 2, false), (2, 8, true), (8, 6, false),
        (6, 7, true), (7, 7, false), (7, 2, true), (2, 5, false),
        (5, 5, true), (5, 8, false), (8, 3, true), (3, 5, false),
        (5, 1, true), (1, 2, false), (2, 3, true), (3, 4, false),
        (4, 2, true), (2, 7, false), (7, 8, true), (8, 0, false),
        (0, 7, true), (7, 5, false), (5, 6, true), (6, 0, false),
        (0, 2, true), (2, 4, false), (4, 7, true), (7, 0, false),
        (0, 0, true), (0, 3, false), (3, 3, true), (3, 1, false),
        (1, 1, true), (1, 7, false), (4, 4, true), (4, 0, false),
        (0, 8, true), (8, 1, false), (1, 6, true), (6, 5, false),
        (5, 4, true), (2, 1, false), (1, 3, true), (3, 6, false),
        (6, 2, true),
];

/// A complete game that crosses win on the meta-grid.
const CROSSES_WIN_GAME: [(u16, u16, bool); 65] = [
        (5, 4, true), (4, 6, false), (6, 0, true), (0, 4, false),
        (4, 8, true), (8, 6, false), (6, 5, true), (5, 8, false),
        (8, 5, true), (5, 5, false), (5, 1, true), (1, 8, false),
        (8, 1, true), (1, 4, false), (4, 1, true), (1, 7, false),
        (7, 1, true), (1, 5, false), (5, 3, true), (3, 8, false),
        (8, 8, true), (8, 7, false), (7, 3, true), (3, 4, false),
        (4, 0, true), (0, 1, false), (1, 2, true), (2, 7, false),
        (7, 6, true), (6, 1, false), (1, 3, true), (3, 3, false),
        (3, 2, true), (2, 3, false), (3, 7, true), (7, 5, false),
        (5, 7, true), (7, 8, false), (8, 3, true), (3, 0, false),
        (0, 8, true), (8, 4, false), (4, 2, true), (2, 0, false),
        (0, 7, true), (7, 7, false), (7, 4, true), (7, 2, false),
        (2, 8, true), (8, 0, false), (0, 6, true), (6, 6, false),
        (6, 4, true), (2, 1, false), (1, 6, true), (6, 7, false),
        (1, 1, true), (1, 0, false), (2, 6, true), (6, 2, false),
        (2, 2, true), (2, 5, false), (2, 4, true), (6, 3, false),
        (8, 2, true),
];

#[test]
fn filling_the_board_without_a_meta_line_is_a_tie() {
    let mut game = UTTTGame::new();
    let last = run(&mut game, &TIE_GAME);
    assert_eq!(game.state(), GameState::Tie);
    assert!(game.is_over());
    assert!(last.is_empty());
}

#[test]
fn plays_after_the_game_ended_are_rejected() {
    let mut game = UTTTGame::new();
    run(&mut game, &TIE_GAME);
    assert_eq!(
        game.play(GridPosition { grid: 0, pos_in_grid: 0 }, true),
        Err(PlayError::GameOver)
    );
}

#[test]
fn a_meta_line_of_won_subgrids_wins_the_game() {
    let mut game = UTTTGame::new();
    run(&mut game, &CROSSES_WIN_GAME);
    assert_eq!(game.state(), GameState::CrossesWin);
    assert!(game.is_over());
}

#[test]
fn a_won_game_stays_won() {
    let mut game = UTTTGame::new();
    run(&mut game, &CROSSES_WIN_GAME);
    assert_eq!(
        game.play(GridPosition { grid: 6, pos_in_grid: 3 }, false),
        Err(PlayError::GameOver)
    );
}
