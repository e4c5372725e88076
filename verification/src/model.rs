//! Bit-level mathematical model of the Ultimate Tic-Tac-Toe board.
//!
//! The board is two 81-bit occupancy words, one per side, plus an 18-bit
//! meta word recording which sub-grids each side has won.  Cell
//! `grid * 9 + pos_in_grid` of an occupancy word carries that side's mark;
//! meta bits 0..9 are sub-grids won by crosses, bits 9..18 the same nine
//! sub-grids won by noughts.  Grids and cells are laid out row-major in
//! their 3x3 arrangement, with the origin at the top left.

use vstd::prelude::*;

verus! {

/// Bit `i` of an 81-cell occupancy word: cell `i` carries this side's mark.
pub open spec fn cell_bit(w: u128, i: int) -> bool
    recommends
        0 <= i < 81,
{
    w & (1u128 << (i as u128)) != 0
}

/// Bit `i` of a word read as a small grid: used both for the 18-bit meta
/// word and for a 9-bit single-grid pattern.
pub open spec fn bit32(w: u32, i: int) -> bool
    recommends
        0 <= i < 32,
{
    w & (1u32 << (i as u32)) != 0
}

/// Cell `i` is occupied by one of the two sides.
pub open spec fn occupied(crosses: u128, noughts: u128, i: int) -> bool
    recommends
        0 <= i < 81,
{
    cell_bit(crosses, i) || cell_bit(noughts, i)
}

/// Sub-grid `g` has been won by either side.
pub open spec fn subgrid_won(meta: u32, g: int) -> bool
    recommends
        0 <= g < 9,
{
    bit32(meta, g) || bit32(meta, g + 9)
}

/// Every cell of sub-grid `g` is occupied.
pub open spec fn subgrid_full(crosses: u128, noughts: u128, g: int) -> bool
    recommends
        0 <= g < 9,
{
    forall|p: int| 0 <= p < 9 ==> #[trigger] occupied(crosses, noughts, 9 * g + p)
}

/// The 9-bit occupancy pattern of sub-grid `g` within one side's word.
pub open spec fn subgrid_pattern(w: u128, g: int) -> u32
    recommends
        0 <= g < 9,
{
    ((w >> ((9 * g) as u128)) & 511) as u32
}

/// The low nine bits of `pat`, read as a 3x3 grid (row-major, bit 0 at the
/// top left), contain a full row, column or diagonal.
pub open spec fn is_line_win(pat: u32) -> bool {
    ||| (bit32(pat, 0) && bit32(pat, 1) && bit32(pat, 2))  // top row
    ||| (bit32(pat, 3) && bit32(pat, 4) && bit32(pat, 5))  // middle row
    ||| (bit32(pat, 6) && bit32(pat, 7) && bit32(pat, 8))  // bottom row
    ||| (bit32(pat, 0) && bit32(pat, 3) && bit32(pat, 6))  // left column
    ||| (bit32(pat, 1) && bit32(pat, 4) && bit32(pat, 7))  // middle column
    ||| (bit32(pat, 2) && bit32(pat, 5) && bit32(pat, 8))  // right column
    ||| (bit32(pat, 0) && bit32(pat, 4) && bit32(pat, 8))  // main diagonal
    ||| (bit32(pat, 2) && bit32(pat, 4) && bit32(pat, 6))  // anti-diagonal
}

/// Crosses' nine won-sub-grid bits of the meta word.
pub open spec fn crosses_meta(meta: u32) -> u32 {
    meta & 511
}

/// Noughts' nine won-sub-grid bits, shifted down next to bit 0.
pub open spec fn noughts_meta(meta: u32) -> u32 {
    (meta >> 9) & 511
}

/// Move (g, p) is a legal next move for a board with the given occupancy
/// words, meta word and legal region.  Region 9 means the whole board is
/// open; region 0..9 restricts play to that one sub-grid.  Within the
/// region a cell is legal exactly when its sub-grid is not yet won and the
/// cell itself is free.
pub open spec fn legal_move(
    crosses: u128,
    noughts: u128,
    meta: u32,
    region: int,
    g: int,
    p: int,
) -> bool {
    &&& 0 <= g < 9
    &&& 0 <= p < 9
    &&& (region == 9 || region == g)
    &&& !subgrid_won(meta, g)
    &&& !occupied(crosses, noughts, 9 * g + p)
}

/// The cell index shown at text row `row` and column `col` when the 9x9
/// board is drawn row by row: the cell belongs to sub-grid
/// `(row / 3) * 3 + col / 3`, at position `(row % 3) * 3 + col % 3`
/// within it.
pub open spec fn board_cell_index(row: int, col: int) -> int
    recommends
        0 <= row < 9,
        0 <= col < 9,
{
    9 * ((row / 3) * 3 + col / 3) + ((row % 3) * 3 + col % 3)
}

/// An all-zero meta word has no bit set.
pub proof fn lemma_bit32_zero(i: int)
    ensures
        !bit32(0, i),
{
    let iu = i as u32;
    assert(0u32 & (1u32 << iu) == 0) by (bit_vector);
}

/// Setting bit `i` of an occupancy word marks cell `i` and leaves every
/// other cell as it was.
pub proof fn lemma_set_cell_bit(w: u128, i: u128, j: int)
    requires
        i < 128,
        0 <= j < 128,
    ensures
        cell_bit(w | (1u128 << i), j) == (j == i || cell_bit(w, j)),
{
    let ju = j as u128;
    assert(((w | (1u128 << i)) & (1u128 << ju) != 0) == (ju == i || w & (1u128 << ju) != 0))
        by (bit_vector)
        requires
            i < 128,
            ju < 128,
    ;
}

/// Setting bit `b` of the meta word sets exactly that bit and leaves every
/// other bit as it was.
pub proof fn lemma_set_bit32(m: u32, b: u32, j: int)
    requires
        b < 32,
        0 <= j < 32,
    ensures
        bit32(m | (1u32 << b), j) == (j == b || bit32(m, j)),
{
    let ju = j as u32;
    assert(((m | (1u32 << b)) & (1u32 << ju) != 0) == (ju == b || m & (1u32 << ju) != 0))
        by (bit_vector)
        requires
            b < 32,
            ju < 32,
    ;
}

/// Marking a cell that the other side does not hold keeps the two sides'
/// words disjoint.
pub proof fn lemma_mark_keeps_disjoint(w: u128, v: u128, i: u128)
    requires
        w & v == 0 || v & w == 0,
        v & (1u128 << i) == 0,
    ensures
        (w | (1u128 << i)) & v == 0,
        v & (w | (1u128 << i)) == 0,
{
    assert((w & v == 0 || v & w == 0) && v & (1u128 << i) == 0 ==> (w | (1u128 << i)) & v == 0 && v
        & (w | (1u128 << i)) == 0) by (bit_vector);
}

/// Marking a cell below 81 keeps the high bits of an occupancy word clear.
pub proof fn lemma_mark_keeps_bounds(w: u128, i: u128)
    requires
        w >> 81 == 0,
        i < 81,
    ensures
        (w | (1u128 << i)) >> 81 == 0,
{
    assert(w >> 81 == 0 && i < 81 ==> (w | (1u128 << i)) >> 81 == 0) by (bit_vector);
}

/// Setting a meta bit below 18 keeps the high bits of the meta word clear.
pub proof fn lemma_meta_keeps_bounds(m: u32, b: u32)
    requires
        m >> 18 == 0,
        b < 18,
    ensures
        (m | (1u32 << b)) >> 18 == 0,
{
    assert(m >> 18 == 0 && b < 18 ==> (m | (1u32 << b)) >> 18 == 0) by (bit_vector);
}

} // verus!
