//! Game-level laws of the engine, stated once and proved for every play.

use vstd::prelude::*;

use crate::engine::{
    cell_index, crosses_after, meta_after, noughts_after, region_after, GridPosition, UTTTGame,
};
use crate::model::{
    bit32, cell_bit, is_line_win, legal_move, lemma_set_bit32, lemma_set_cell_bit,
    subgrid_pattern, subgrid_won,
};

verus! {

/// Law: a well-formed board never has a cell owned by both sides.  `new`
/// establishes well-formedness and every `play` preserves it, so the two
/// occupancy sets stay disjoint through every sequence of plays.
pub proof fn lemma_no_cell_owned_by_both(game: UTTTGame, i: int)
    requires
        game.wf(),
        0 <= i < 81,
    ensures
        !(cell_bit(game.crosses_word(), i) && cell_bit(game.noughts_word(), i)),
{
    let c = game.crosses_word();
    let n = game.noughts_word();
    let iu = i as u128;
    assert(c & n == 0 ==> !(c & (1u128 << iu) != 0 && n & (1u128 << iu) != 0)) by (bit_vector);
}

/// Law: an accepted play marks exactly the played cell for the acting
/// side; every other cell of both sides stays as it was.
pub proof fn lemma_play_marks_one_cell(
    pre: UTTTGame,
    cell: GridPosition,
    cross_playing: bool,
    j: int,
)
    requires
        cell.grid < 9,
        cell.pos_in_grid < 9,
        0 <= j < 81,
    ensures
        cell_bit(crosses_after(pre, cell, cross_playing), j) == ((cross_playing && j == cell_index(
            cell,
        )) || cell_bit(pre.crosses_word(), j)),
        cell_bit(noughts_after(pre, cell, cross_playing), j) == ((!cross_playing && j
            == cell_index(cell)) || cell_bit(pre.noughts_word(), j)),
{
    lemma_set_cell_bit(pre.crosses_word(), cell_index(cell) as u128, j);
    lemma_set_cell_bit(pre.noughts_word(), cell_index(cell) as u128, j);
}

/// Law: a play that completes a line in its own sub-grid sets that
/// sub-grid's meta bit for the acting side.
pub proof fn lemma_completed_line_sets_meta_bit(
    pre: UTTTGame,
    cell: GridPosition,
    cross_playing: bool,
)
    requires
        cell.grid < 9,
        is_line_win(
            subgrid_pattern(
                if cross_playing {
                    crosses_after(pre, cell, cross_playing)
                } else {
                    noughts_after(pre, cell, cross_playing)
                },
                cell.grid as int,
            ),
        ),
    ensures
        bit32(
            meta_after(pre, cell, cross_playing),
            if cross_playing {
                cell.grid as int
            } else {
                cell.grid as int + 9
            },
        ),
{
    let b: u32 = if cross_playing {
        cell.grid as u32
    } else {
        (cell.grid + 9) as u32
    };
    let j: int = if cross_playing {
        cell.grid as int
    } else {
        cell.grid as int + 9
    };
    lemma_set_bit32(pre.meta_word(), b, j);
}

/// Law: a meta bit, once set by a play, is never cleared by a later play.
pub proof fn lemma_meta_bits_persist(
    pre: UTTTGame,
    cell: GridPosition,
    cross_playing: bool,
    j: int,
)
    requires
        cell.grid < 9,
        0 <= j < 18,
        bit32(pre.meta_word(), j),
    ensures
        bit32(meta_after(pre, cell, cross_playing), j),
{
    let b: u32 = if cross_playing {
        cell.grid as u32
    } else {
        (cell.grid + 9) as u32
    };
    lemma_set_bit32(pre.meta_word(), b, j);
}

/// Law: a won sub-grid is closed to further play — no cell of it is a
/// legal move, however many of its cells are still empty.
pub proof fn lemma_won_subgrid_closed(
    crosses: u128,
    noughts: u128,
    meta: u32,
    region: int,
    g: int,
    p: int,
)
    requires
        subgrid_won(meta, g),
    ensures
        !legal_move(crosses, noughts, meta, region, g, p),
{
}

/// Law: the send-to rule.  When the sub-grid named by the position just
/// played is still open, the legal region after the play is exactly that
/// sub-grid, and every legal move lies inside it.
pub proof fn lemma_send_to_restricts(
    pre: UTTTGame,
    cell: GridPosition,
    cross_playing: bool,
    g: int,
    p: int,
)
    requires
        region_after(pre, cell, cross_playing) != 9,
        legal_move(
            crosses_after(pre, cell, cross_playing),
            noughts_after(pre, cell, cross_playing),
            meta_after(pre, cell, cross_playing),
            region_after(pre, cell, cross_playing),
            g,
            p,
        ),
    ensures
        g == cell.pos_in_grid as int,
{
}

} // verus!
