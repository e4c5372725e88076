//! The Ultimate Tic-Tac-Toe rules engine: board state, move legality,
//! win detection and the turn/outcome state machine.

use vstd::prelude::*;

use crate::model::{
    bit32, board_cell_index, cell_bit, crosses_meta, is_line_win, lemma_bit32_zero,
    lemma_mark_keeps_bounds, lemma_mark_keeps_disjoint, lemma_meta_keeps_bounds, lemma_set_bit32,
    legal_move, noughts_meta, occupied, subgrid_full, subgrid_pattern, subgrid_won,
};

verus! {

/// Whose turn it is, or how the game ended.  Exactly one of these holds at
/// any time; the initial state is `CrossesTurn`.
#[derive(Debug, Clone, Copy, PartialEq, Eq, Structural)]
pub enum GameState {
    CrossesWin,
    NoughtsWin,
    Tie,
    CrossesTurn,
    NoughtsTurn,
}

/// One of the 81 cells: `grid` picks the sub-grid and `pos_in_grid` the
/// cell within it, both 0..9 and row-major with the origin at the top left.
#[derive(Debug, Clone, Copy, PartialEq, Eq, Structural)]
pub struct GridPosition {
    pub grid: u16,
    pub pos_in_grid: u16,
}

/// Why a play was rejected.
#[derive(Debug, Clone, Copy, PartialEq, Eq, Structural)]
pub enum PlayError {
    /// The game already ended in a win or a tie.
    GameOver,
    /// The acting side does not match the side whose turn it is.
    WrongTurn,
    /// `grid` or `pos_in_grid` lies outside 0..9.
    OutOfRange,
    /// The cell lies outside the current legal region, or its sub-grid is
    /// already won.
    OutOfRegion,
    /// The cell is already occupied.
    CellOccupied,
}

/// The global cell index of a position: `grid * 9 + pos_in_grid`.
pub open spec fn cell_index(cell: GridPosition) -> int {
    9 * (cell.grid as int) + (cell.pos_in_grid as int)
}

/// The game has ended.
pub open spec fn is_terminal(s: GameState) -> bool {
    s == GameState::CrossesWin || s == GameState::NoughtsWin || s == GameState::Tie
}

/// The acting side matches the side to move.
pub open spec fn turn_matches(s: GameState, cross_playing: bool) -> bool {
    if cross_playing {
        s == GameState::CrossesTurn
    } else {
        s == GameState::NoughtsTurn
    }
}

/// The game state after a play: a completed meta line wins, crosses
/// checked first; otherwise an empty legal-move sequence is a tie;
/// otherwise it is the other side's turn.
pub open spec fn next_state(meta: u32, any_moves: bool, cross_played: bool) -> GameState {
    if is_line_win(crosses_meta(meta)) {
        GameState::CrossesWin
    } else if is_line_win(noughts_meta(meta)) {
        GameState::NoughtsWin
    } else if !any_moves {
        GameState::Tie
    } else if cross_played {
        GameState::NoughtsTurn
    } else {
        GameState::CrossesTurn
    }
}

/// `s` holds the move (g, p).
pub open spec fn contains_move(s: Seq<GridPosition>, g: int, p: int) -> bool {
    exists|k: int|
        #![trigger s[k]]
        0 <= k < s.len() && s[k].grid as int == g && s[k].pos_in_grid as int == p
}

/// Every move in `s` is a legal move for the given board.
pub open spec fn all_moves_legal(
    s: Seq<GridPosition>,
    crosses: u128,
    noughts: u128,
    meta: u32,
    region: int,
) -> bool {
    forall|k: int|
        #![trigger s[k]]
        0 <= k < s.len() ==> legal_move(
            crosses,
            noughts,
            meta,
            region,
            s[k].grid as int,
            s[k].pos_in_grid as int,
        )
}

/// `s` already holds every legal move whose cell index lies below `bound`.
pub open spec fn covers_below(
    s: Seq<GridPosition>,
    crosses: u128,
    noughts: u128,
    meta: u32,
    region: int,
    bound: int,
) -> bool {
    forall|g: int, p: int|
        #![trigger legal_move(crosses, noughts, meta, region, g, p)]
        legal_move(crosses, noughts, meta, region, g, p) && 9 * g + p < bound ==> contains_move(
            s,
            g,
            p,
        )
}

/// The cell indices in `s` are strictly increasing and all lie below
/// `bound`.
pub open spec fn sorted_below(s: Seq<GridPosition>, bound: int) -> bool {
    &&& forall|k: int| #![trigger s[k]] 0 <= k < s.len() ==> cell_index(s[k]) < bound
    &&& forall|k1: int, k2: int|
        #![trigger s[k1], s[k2]]
        0 <= k1 < k2 < s.len() ==> cell_index(s[k1]) < cell_index(s[k2])
}

/// `s` lists exactly the legal moves of the given board, each once, in
/// board order: grid ascending, then position within the grid ascending.
pub open spec fn lists_legal_moves(
    s: Seq<GridPosition>,
    crosses: u128,
    noughts: u128,
    meta: u32,
    region: int,
) -> bool {
    &&& all_moves_legal(s, crosses, noughts, meta, region)
    &&& covers_below(s, crosses, noughts, meta, region, 81)
    &&& sorted_below(s, 81)
}

/// The error, if any, that a play of `cell` by the given side must be
/// rejected with, starting from state `pre`.  `None` means the play is
/// accepted.  The checks run in this order: game already over, wrong
/// side, coordinates out of range, cell outside the legal region or in a
/// won sub-grid, cell occupied.
pub open spec fn play_error(pre: UTTTGame, cell: GridPosition, cross_playing: bool) -> Option<
    PlayError,
> {
    if is_terminal(pre.current_state()) {
        Some(PlayError::GameOver)
    } else if !turn_matches(pre.current_state(), cross_playing) {
        Some(PlayError::WrongTurn)
    } else if !(cell.grid < 9 && cell.pos_in_grid < 9) {
        Some(PlayError::OutOfRange)
    } else if !((pre.region_code() == 9 || pre.region_code() == cell.grid as int) && !subgrid_won(
        pre.meta_word(),
        cell.grid as int,
    )) {
        Some(PlayError::OutOfRegion)
    } else if occupied(pre.crosses_word(), pre.noughts_word(), cell_index(cell)) {
        Some(PlayError::CellOccupied)
    } else {
        None
    }
}

/// Crosses' occupancy word after an accepted play of `cell`.
pub open spec fn crosses_after(pre: UTTTGame, cell: GridPosition, cross_playing: bool) -> u128 {
    if cross_playing {
        pre.crosses_word() | (1u128 << (cell_index(cell) as u128))
    } else {
        pre.crosses_word()
    }
}

/// Noughts' occupancy word after an accepted play of `cell`.
pub open spec fn noughts_after(pre: UTTTGame, cell: GridPosition, cross_playing: bool) -> u128 {
    if cross_playing {
        pre.noughts_word()
    } else {
        pre.noughts_word() | (1u128 << (cell_index(cell) as u128))
    }
}

/// The meta word after an accepted play: if the mark just placed completes
/// a line in its sub-grid, that sub-grid's bit for the acting side is set;
/// otherwise the meta word is unchanged.  Meta bits are never cleared.
pub open spec fn meta_after(pre: UTTTGame, cell: GridPosition, cross_playing: bool) -> u32 {
    let side_word = if cross_playing {
        crosses_after(pre, cell, cross_playing)
    } else {
        noughts_after(pre, cell, cross_playing)
    };
    if is_line_win(subgrid_pattern(side_word, cell.grid as int)) {
        pre.meta_word() | (1u32 << (if cross_playing {
            cell.grid as u32
        } else {
            (cell.grid + 9) as u32
        }))
    } else {
        pre.meta_word()
    }
}

/// The legal region after an accepted play: the sub-grid named by the
/// position just played within its grid, unless that sub-grid is won or
/// full, in which case the whole board opens.
pub open spec fn region_after(pre: UTTTGame, cell: GridPosition, cross_playing: bool) -> int {
    let c = crosses_after(pre, cell, cross_playing);
    let n = noughts_after(pre, cell, cross_playing);
    let m = meta_after(pre, cell, cross_playing);
    let target = cell.pos_in_grid as int;
    if subgrid_won(m, target) || subgrid_full(c, n, target) {
        9
    } else {
        target
    }
}

/// The engine.  It owns the two occupancy words, the meta word of won
/// sub-grids, the legal region for the next move, and the game state.
pub struct UTTTGame {
    crosses: u128,
    noughts: u128,
    big_game: u32,
    region: u16,
    state: GameState,
}

impl UTTTGame {
    /// The occupancy word of crosses: bit `i` marks cell `i`.
    pub closed spec fn crosses_word(self) -> u128 {
        self.crosses
    }

    /// The occupancy word of noughts: bit `i` marks cell `i`.
    pub closed spec fn noughts_word(self) -> u128 {
        self.noughts
    }

    /// The meta word: bits 0..9 are sub-grids won by crosses, bits 9..18
    /// the same sub-grids won by noughts.
    pub closed spec fn meta_word(self) -> u32 {
        self.big_game
    }

    /// The legal region for the next move: 0..9 names one sub-grid, 9
    /// opens the whole board.
    pub closed spec fn region_code(self) -> int {
        self.region as int
    }

    /// The current game state, for use in contracts.
    pub closed spec fn current_state(self) -> GameState {
        self.state
    }

    /// Read the current game state.
    pub fn state(&self) -> (s: GameState)
        ensures
            s == self.current_state(),
    {
        self.state
    }

    /// The board invariant: no cell is owned by both sides, no bits stray
    /// above cell 80 or meta bit 17, the region is a sub-grid or the whole
    /// board, and no sub-grid is recorded as won by both sides.
    pub open spec fn wf(self) -> bool {
        &&& self.crosses_word() & self.noughts_word() == 0
        &&& self.crosses_word() >> 81 == 0
        &&& self.noughts_word() >> 81 == 0
        &&& self.meta_word() >> 18 == 0
        &&& 0 <= self.region_code() <= 9
        &&& forall|g: int|
            0 <= g < 9 ==> !(#[trigger] bit32(self.meta_word(), g) && bit32(
                self.meta_word(),
                g + 9,
            ))
    }

    /// A fresh game: empty board, no sub-grid won, the whole board open,
    /// crosses to move.
    pub fn new() -> (game: Self)
        ensures
            game.wf(),
            game.crosses_word() == 0,
            game.noughts_word() == 0,
            game.meta_word() == 0,
            game.region_code() == 9,
            game.current_state() == GameState::CrossesTurn,
    {
        let game = Self {
            crosses: 0,
            noughts: 0,
            big_game: 0,
            region: 9,
            state: GameState::CrossesTurn,
        };
        proof {
            assert(0u128 & 0u128 == 0 && 0u128 >> 81 == 0) by (bit_vector);
            assert(0u32 >> 18 == 0) by (bit_vector);
            assert forall|g: int| 0 <= g < 9 implies !(#[trigger] bit32(0, g) && bit32(
                0,
                g + 9,
            )) by {
                lemma_bit32_zero(g);
            }
        }
        game
    }

    /// Cell `i` (global index) is occupied by either side.
    fn is_occupied(&self, i: u16) -> (b: bool)
        requires
            i < 81,
        ensures
            b == occupied(self.crosses_word(), self.noughts_word(), i as int),
    {
        let mask: u128 = 1u128 << (i as u128);
        (self.crosses & mask != 0) || (self.noughts & mask != 0)
    }

    /// Sub-grid `g` has been won by either side.
    fn subgrid_is_won(&self, g: u16) -> (b: bool)
        requires
            g < 9,
        ensures
            b == subgrid_won(self.meta_word(), g as int),
    {
        (self.big_game & (1u32 << (g as u32)) != 0) || (self.big_game & (1u32 << ((g + 9) as u32))
            != 0)
    }

    /// Every cell of sub-grid `g` is occupied.
    fn subgrid_is_full(&self, g: u16) -> (b: bool)
        requires
            g < 9,
        ensures
            b == subgrid_full(self.crosses_word(), self.noughts_word(), g as int),
    {
        for p in 0..9u16
            invariant
                g < 9,
                forall|q: int|
                    0 <= q < p ==> #[trigger] occupied(
                        self.crosses_word(),
                        self.noughts_word(),
                        9 * (g as int) + q,
                    ),
        {
            if !self.is_occupied(g * 9 + p) {
                proof {
                    assert(!occupied(
                        self.crosses_word(),
                        self.noughts_word(),
                        9 * (g as int) + (p as int),
                    ));
                }
                return false;
            }
        }
        true
    }

    /// The eight winning-line tests of a 3x3 grid, applied to the low
    /// nine bits of `pat`: three rows, three columns, two diagonals.
    pub fn check_single_win(&self, pat: u32) -> (b: bool)
        ensures
            b == is_line_win(pat),
    {
        let rows = (pat & 7 == 7) || (pat & 56 == 56) || (pat & 448 == 448);
        let cols = (pat & 73 == 73) || (pat & 146 == 146) || (pat & 292 == 292);
        let diags = (pat & 273 == 273) || (pat & 84 == 84);
        proof {
            lemma_line_masks(pat);
        }
        rows || cols || diags
    }

    /// The game has ended in a win or a tie.
    pub fn is_over(&self) -> (b: bool)
        ensures
            b == is_terminal(self.current_state()),
    {
        self.state == GameState::CrossesWin || self.state == GameState::NoughtsWin || self.state
            == GameState::Tie
    }

    /// Collect, in board order, every cell that is a legal next move: it
    /// lies in the legal region, its sub-grid is not won, and it is free.
    #[verifier::loop_isolation(false)]
    fn collect_legal_moves(&self) -> (moves: Vec<GridPosition>)
        requires
            0 <= self.region_code() <= 9,
        ensures
            lists_legal_moves(
                moves@,
                self.crosses_word(),
                self.noughts_word(),
                self.meta_word(),
                self.region_code(),
            ),
    {
        let ghost c = self.crosses_word();
        let ghost n = self.noughts_word();
        let ghost m = self.meta_word();
        let ghost reg = self.region_code();
        let mut moves: Vec<GridPosition> = Vec::new();
        if self.region == 9 {
            for g2 in 0..9u16
                invariant
                    all_moves_legal(moves@, c, n, m, 9),
                    covers_below(moves@, c, n, m, 9, 9 * (g2 as int)),
                    sorted_below(moves@, 9 * (g2 as int)),
            {
                if !self.subgrid_is_won(g2) {
                    for p2 in 0..9u16
                        invariant
                            g2 < 9,
                            !subgrid_won(m, g2 as int),
                            all_moves_legal(moves@, c, n, m, 9),
                            covers_below(moves@, c, n, m, 9, 9 * (g2 as int) + p2 as int),
                            sorted_below(moves@, 9 * (g2 as int) + p2 as int),
                    {
                        let ghost before = moves@;
                        let ghost bound = 9 * (g2 as int) + p2 as int;
                        if !self.is_occupied(g2 * 9 + p2) {
                            let x = GridPosition { grid: g2, pos_in_grid: p2 };
                            moves.push(x);
                            proof {
                                lemma_moves_push(before, x, c, n, m, 9, bound);
                            }
                        } else {
                            proof {
                                assert(occupied(c, n, 9 * (g2 as int) + (p2 as int)));
                                assert forall|g: int, p: int|
                                    #[trigger] legal_move(c, n, m, 9, g, p) && 9 * g + p < bound
                                        + 1 implies contains_move(moves@, g, p) by {
                                    if 9 * g + p == bound {
                                        assert(g == g2 as int && p == p2 as int);
                                        assert(!occupied(c, n, 9 * g + p));
                                    }
                                }
                            }
                        }
                    }
                } else {
                    proof {
                        assert forall|g: int, p: int|
                            #[trigger] legal_move(c, n, m, 9, g, p) && 9 * g + p < 9 * (g2 as int)
                                + 9 implies contains_move(moves@, g, p) by {
                            if 9 * g + p >= 9 * (g2 as int) {
                                assert(g == g2 as int);
                                assert(!subgrid_won(m, g));
                            }
                        }
                    }
                }
            }
            proof {
                assert(covers_below(moves@, c, n, m, reg, 81));
            }
        } else {
            let r0: u16 = self.region;
            if !self.subgrid_is_won(r0) {
                for p2 in 0..9u16
                    invariant
                        r0 < 9,
                        reg == r0 as int,
                        !subgrid_won(m, r0 as int),
                        all_moves_legal(moves@, c, n, m, reg),
                        covers_below(moves@, c, n, m, reg, 9 * (r0 as int) + p2 as int),
                        sorted_below(moves@, 9 * (r0 as int) + p2 as int),
                {
                    let ghost before = moves@;
                    let ghost bound = 9 * (r0 as int) + p2 as int;
                    if !self.is_occupied(r0 * 9 + p2) {
                        let x = GridPosition { grid: r0, pos_in_grid: p2 };
                        moves.push(x);
                        proof {
                            lemma_moves_push(before, x, c, n, m, reg, bound);
                        }
                    } else {
                        proof {
                            assert(occupied(c, n, 9 * (r0 as int) + (p2 as int)));
                            assert forall|g: int, p: int|
                                #[trigger] legal_move(c, n, m, reg, g, p) && 9 * g + p < bound
                                    + 1 implies contains_move(moves@, g, p) by {
                                if 9 * g + p == bound {
                                    assert(g == r0 as int && p == p2 as int);
                                    assert(!occupied(c, n, 9 * g + p));
                                }
                            }
                        }
                    }
                }
                proof {
                    assert forall|g: int, p: int|
                        #[trigger] legal_move(c, n, m, reg, g, p) && 9 * g + p
                            < 81 implies contains_move(moves@, g, p) by {
                        assert(g == r0 as int);
                        assert(9 * g + p < 9 * (r0 as int) + 9);
                    }
                    assert(sorted_below(moves@, 81));
                }
            } else {
                proof {
                    assert forall|g: int, p: int|
                        #[trigger] legal_move(c, n, m, reg, g, p) && 9 * g + p
                            < 81 implies contains_move(moves@, g, p) by {
                        assert(g == r0 as int);
                        assert(!subgrid_won(m, g));
                    }
                }
            }
        }
        moves
    }

    /// Win detection over the meta word: if crosses hold a line of won
    /// sub-grids the game state becomes `CrossesWin`; otherwise, if
    /// noughts do, `NoughtsWin`; otherwise the state is left as it is.
    /// The board itself is not changed.
    pub fn check_win(&mut self)
        ensures
            final (self).crosses_word() == old(self).crosses_word(),
            final (self).noughts_word() == old(self).noughts_word(),
            final (self).meta_word() == old(self).meta_word(),
            final (self).region_code() == old(self).region_code(),
            final (self).current_state() == (if is_line_win(crosses_meta(old(self).meta_word())) {
                GameState::CrossesWin
            } else if is_line_win(noughts_meta(old(self).meta_word())) {
                GameState::NoughtsWin
            } else {
                old(self).current_state()
            }),
            old(self).wf() ==> final (self).wf(),
    {
        if self.check_single_win(self.big_game & 511) {
            self.state = GameState::CrossesWin;
        } else if self.check_single_win((self.big_game >> 9) & 511) {
            self.state = GameState::NoughtsWin;
        }
    }

    /// The display character of the cell shown at text row `row` and
    /// column `col` when the board is drawn as a 9x9 grid: 'X' for a
    /// cross, 'O' for a nought, '.' for a free cell.
    pub fn cell_char(&self, row: u16, col: u16) -> (c: char)
        requires
            row < 9,
            col < 9,
        ensures
            c == (if cell_bit(self.crosses_word(), board_cell_index(row as int, col as int)) {
                'X'
            } else if cell_bit(self.noughts_word(), board_cell_index(row as int, col as int)) {
                'O'
            } else {
                '.'
            }),
    {
        proof {
            assert(row / 3 < 3 && row % 3 < 3) by (bit_vector)
                requires
                    row < 9,
            ;
            assert(col / 3 < 3 && col % 3 < 3) by (bit_vector)
                requires
                    col < 9,
            ;
        }
        let grid_number: u16 = (row / 3) * 3 + col / 3;
        let cell_pos: u16 = (row % 3) * 3 + col % 3;
        let i: u16 = grid_number * 9 + cell_pos;
        if self.crosses & (1u128 << (i as u128)) != 0 {
            'X'
        } else if self.noughts & (1u128 << (i as u128)) != 0 {
            'O'
        } else {
            '.'
        }
    }

    /// Play `cell` for the given side.  An illegal play is rejected with
    /// the reason and leaves the engine untouched.  An accepted play marks
    /// the cell, records a completed line of its sub-grid in the meta
    /// word, derives the legal region for the following move by the
    /// send-to rule, returns the legal next moves in board order, and
    /// drives the state machine: tie when no move is left, otherwise the
    /// other side's turn, and a completed meta line overrides either with
    /// the win.
    pub fn play(&mut self, cell: GridPosition, cross_playing: bool) -> (r: Result<
        Vec<GridPosition>,
        PlayError,
    >)
        requires
            old(self).wf(),
        ensures
            final (self).wf(),
            r is Err <==> play_error(*old(self), cell, cross_playing) is Some,
            r matches Err(e) ==> play_error(*old(self), cell, cross_playing) == Some(e)
                && *final (self) == *old(self),
            r matches Ok(moves) ==> {
                &&& final (self).crosses_word() == crosses_after(*old(self), cell, cross_playing)
                &&& final (self).noughts_word() == noughts_after(*old(self), cell, cross_playing)
                &&& final (self).meta_word() == meta_after(*old(self), cell, cross_playing)
                &&& final (self).region_code() == region_after(*old(self), cell, cross_playing)
                &&& final (self).current_state() == next_state(
                    meta_after(*old(self), cell, cross_playing),
                    moves@.len() > 0,
                    cross_playing,
                )
                &&& lists_legal_moves(
                    moves@,
                    final (self).crosses_word(),
                    final (self).noughts_word(),
                    final (self).meta_word(),
                    final (self).region_code(),
                )
            },
    {
        if self.is_over() {
            return Err(PlayError::GameOver);
        }
        let turn_ok: bool = if cross_playing {
            self.state == GameState::CrossesTurn
        } else {
            self.state == GameState::NoughtsTurn
        };
        if !turn_ok {
            return Err(PlayError::WrongTurn);
        }
        if !(cell.grid < 9 && cell.pos_in_grid < 9) {
            return Err(PlayError::OutOfRange);
        }
        let g: u16 = cell.grid;
        let p: u16 = cell.pos_in_grid;
        if !((self.region == 9 || self.region == g) && !self.subgrid_is_won(g)) {
            return Err(PlayError::OutOfRegion);
        }
        let idx: u16 = g * 9 + p;
        if self.is_occupied(idx) {
            return Err(PlayError::CellOccupied);
        }
        // Mark the cell for the acting side.  The cell was free, so the
        // two sides stay disjoint and no bit strays above cell 80.
        let mark: u128 = 1u128 << (idx as u128);
        proof {
            if cross_playing {
                lemma_mark_keeps_disjoint(
                    old(self).crosses_word(),
                    old(self).noughts_word(),
                    idx as u128,
                );
                lemma_mark_keeps_bounds(old(self).crosses_word(), idx as u128);
            } else {
                lemma_mark_keeps_disjoint(
                    old(self).noughts_word(),
                    old(self).crosses_word(),
                    idx as u128,
                );
                lemma_mark_keeps_bounds(old(self).noughts_word(), idx as u128);
            }
        }
        if cross_playing {
            self.crosses = self.crosses | mark;
        } else {
            self.noughts = self.noughts | mark;
        }
        // Record a line of the played sub-grid completed by this mark.
        let shift_amt: u128 = 9u128 * (g as u128);
        let side_pat: u32 = if cross_playing {
            ((self.crosses >> shift_amt) & 511) as u32
        } else {
            ((self.noughts >> shift_amt) & 511) as u32
        };
        proof {
            assert(shift_amt == (9 * (g as int)) as u128);
        }
        if self.check_single_win(side_pat) {
            let gb: u32 = if cross_playing {
                g as u32
            } else {
                (g as u32) + 9
            };
            proof {
                lemma_meta_update_wf(self.meta_word(), gb);
            }
            let mbit: u32 = 1u32 << gb;
            self.big_game = self.big_game | mbit;
        }
        // The send-to rule: the position just played names the sub-grid
        // for the following move; a won or full target opens the board.
        let target_closed: bool = self.subgrid_is_won(p) || self.subgrid_is_full(p);
        self.region = if target_closed {
            9
        } else {
            p
        };
        let moves: Vec<GridPosition> = self.collect_legal_moves();
        // Tie or turn, then win detection overrides either.
        if moves.len() == 0 {
            self.state = GameState::Tie;
        } else if cross_playing {
            self.state = GameState::NoughtsTurn;
        } else {
            self.state = GameState::CrossesTurn;
        }
        self.check_win();
        Ok(moves)
    }
}

/// Setting the acting side's meta bit for a sub-grid that neither side
/// had won keeps the meta word's bounds and the one-winner-per-sub-grid
/// invariant.
proof fn lemma_meta_update_wf(m: u32, b: u32)
    requires
        m >> 18 == 0,
        b < 18,
        b < 9 ==> !bit32(m, b as int + 9),
        9 <= b ==> !bit32(m, b as int - 9),
        forall|j: int| 0 <= j < 9 ==> !(#[trigger] bit32(m, j) && bit32(m, j + 9)),
    ensures
        (m | (1u32 << b)) >> 18 == 0,
        forall|j: int|
            0 <= j < 9 ==> !(#[trigger] bit32(m | (1u32 << b), j) && bit32(m | (1u32 << b), j + 9)),
{
    lemma_meta_keeps_bounds(m, b);
    let m2: u32 = m | (1u32 << b);
    assert forall|j: int| 0 <= j < 9 implies !(#[trigger] bit32(m2, j) && bit32(m2, j + 9)) by {
        lemma_set_bit32(m, b, j);
        lemma_set_bit32(m, b, j + 9);
    }
}

/// Appending a move keeps every move the sequence already held.
proof fn lemma_push_keeps_contains(s: Seq<GridPosition>, x: GridPosition, g: int, p: int)
    requires
        contains_move(s, g, p),
    ensures
        contains_move(s.push(x), g, p),
{
    let k = choose|k: int|
        0 <= k < s.len() && s[k].grid as int == g && s[k].pos_in_grid as int == p;
    assert(s.push(x)[k] == s[k]);
}

/// Appending the legal move whose cell index is exactly the bound keeps
/// the collection invariants and advances the bound by one.
proof fn lemma_moves_push(
    s: Seq<GridPosition>,
    x: GridPosition,
    crosses: u128,
    noughts: u128,
    meta: u32,
    region: int,
    bound: int,
)
    requires
        all_moves_legal(s, crosses, noughts, meta, region),
        covers_below(s, crosses, noughts, meta, region, bound),
        sorted_below(s, bound),
        legal_move(crosses, noughts, meta, region, x.grid as int, x.pos_in_grid as int),
        cell_index(x) == bound,
    ensures
        all_moves_legal(s.push(x), crosses, noughts, meta, region),
        covers_below(s.push(x), crosses, noughts, meta, region, bound + 1),
        sorted_below(s.push(x), bound + 1),
{
    let s2 = s.push(x);
    assert forall|k: int| 0 <= k < s2.len() implies legal_move(
        crosses,
        noughts,
        meta,
        region,
        (#[trigger] s2[k]).grid as int,
        s2[k].pos_in_grid as int,
    ) by {
        if k < s.len() {
            assert(s2[k] == s[k]);
        } else {
            assert(s2[k] == x);
        }
    }
    assert forall|g: int, p: int|
        #[trigger] legal_move(crosses, noughts, meta, region, g, p) && 9 * g + p < bound
            + 1 implies contains_move(s2, g, p) by {
        if 9 * g + p < bound {
            lemma_push_keeps_contains(s, x, g, p);
        } else {
            assert(g == x.grid as int && p == x.pos_in_grid as int);
            assert(s2[s.len() as int] == x);
        }
    }
    assert forall|k: int| 0 <= k < s2.len() implies cell_index(#[trigger] s2[k]) < bound + 1 by {
        if k < s.len() {
            assert(s2[k] == s[k]);
        } else {
            assert(s2[k] == x);
        }
    }
    assert forall|k1: int, k2: int| 0 <= k1 < k2 < s2.len() implies cell_index(
        #[trigger] s2[k1],
    ) < cell_index(#[trigger] s2[k2]) by {
        assert(s2[k1] == s[k1]);
        if k2 < s.len() {
            assert(s2[k2] == s[k2]);
        } else {
            assert(s2[k2] == x);
        }
    }
}

/// Each winning-line mask test over a 9-bit pattern is the conjunction of
/// its three cells' bit tests.
proof fn lemma_line_masks(pat: u32)
    ensures
        (pat & 7 == 7) == (bit32(pat, 0) && bit32(pat, 1) && bit32(pat, 2)),
        (pat & 56 == 56) == (bit32(pat, 3) && bit32(pat, 4) && bit32(pat, 5)),
        (pat & 448 == 448) == (bit32(pat, 6) && bit32(pat, 7) && bit32(pat, 8)),
        (pat & 73 == 73) == (bit32(pat, 0) && bit32(pat, 3) && bit32(pat, 6)),
        (pat & 146 == 146) == (bit32(pat, 1) && bit32(pat, 4) && bit32(pat, 7)),
        (pat & 292 == 292) == (bit32(pat, 2) && bit32(pat, 5) && bit32(pat, 8)),
        (pat & 273 == 273) == (bit32(pat, 0) && bit32(pat, 4) && bit32(pat, 8)),
        (pat & 84 == 84) == (bit32(pat, 2) && bit32(pat, 4) && bit32(pat, 6)),
{
    assert((pat & 7 == 7) == ((pat & (1u32 << 0u32) != 0) && (pat & (1u32 << 1u32) != 0) && (pat
        & (1u32 << 2u32) != 0)) && (pat & 56 == 56) == ((pat & (1u32 << 3u32) != 0) && (pat & (1u32
        << 4u32) != 0) && (pat & (1u32 << 5u32) != 0)) && (pat & 448 == 448) == ((pat & (1u32
        << 6u32) != 0) && (pat & (1u32 << 7u32) != 0) && (pat & (1u32 << 8u32) != 0)) && (pat & 73
        == 73) == ((pat & (1u32 << 0u32) != 0) && (pat & (1u32 << 3u32) != 0) && (pat & (1u32
        << 6u32) != 0)) && (pat & 146 == 146) == ((pat & (1u32 << 1u32) != 0) && (pat & (1u32
        << 4u32) != 0) && (pat & (1u32 << 7u32) != 0)) && (pat & 292 == 292) == ((pat & (1u32
        << 2u32) != 0) && (pat & (1u32 << 5u32) != 0) && (pat & (1u32 << 8u32) != 0)) && (pat & 273
        == 273) == ((pat & (1u32 << 0u32) != 0) && (pat & (1u32 << 4u32) != 0) && (pat & (1u32
        << 8u32) != 0)) && (pat & 84 == 84) == ((pat & (1u32 << 2u32) != 0) && (pat & (1u32
        << 4u32) != 0) && (pat & (1u32 << 6u32) != 0))) by (bit_vector);
}

} // verus!
