use vstd::prelude::*;

verus! {

/// Whether pixel `col` (0 is the leftmost) of a sprite row is set: rows are
/// read most significant bit first.
pub open spec fn sprite_bit(row: u8, col: u8) -> bool {
    row & (0x80u8 >> col) != 0
}

/// Column of a screen cell.
pub open spec fn cell_col(idx: int) -> int {
    idx % 64
}

/// Row of a screen cell.
pub open spec fn cell_row(idx: int) -> int {
    idx / 64
}

/// Whether a sprite of `n` rows read from `ram[i..]` and drawn with its
/// top-left corner at (`x`, `y`) sets cell `idx`, the sprite wrapping round
/// both edges of the 64x32 grid.
pub open spec fn covers(ram: Seq<u8>, i: int, x: int, y: int, n: int, idx: int) -> bool {
    let dc = (cell_col(idx) - x) % 64;
    let dr = (cell_row(idx) - y) % 32;
    dr < n && dc < 8 && sprite_bit(ram[i + dr], dc as u8)
}

/// The screen after drawing: each cell the sprite covers is flipped.
pub open spec fn draw_screen(screen: Seq<bool>, ram: Seq<u8>, i: int, x: int, y: int, n: int) -> Seq<bool> {
    Seq::new(screen.len(), |idx: int| screen[idx] != covers(ram, i, x, y, n, idx))
}

/// Whether drawing turns off some lit cell.
pub open spec fn draw_collides(screen: Seq<bool>, ram: Seq<u8>, i: int, x: int, y: int, n: int) -> bool {
    exists|idx: int| 0 <= idx < screen.len() && screen[idx] && #[trigger] covers(ram, i, x, y, n, idx)
}

} // verus!

verus! {

/// The cell of the grid where sprite pixel (`c`, `r`) lands, wrapped round
/// both edges.
pub open spec fn target_cell(x: int, y: int, r: int, c: int) -> int {
    (x + c) % 64 + 64 * ((y + r) % 32)
}

/// `covers`, restricted to sprite rows before `r` and to the first `c`
/// pixels of row `r`.
pub open spec fn covers_before(ram: Seq<u8>, i: int, x: int, y: int, n: int, idx: int, r: int, c: int) -> bool {
    let dc = (cell_col(idx) - x) % 64;
    let dr = (cell_row(idx) - y) % 32;
    covers(ram, i, x, y, n, idx) && (dr < r || (dr == r && dc < c))
}

/// Sprite pixel (`c`, `r`) lands on exactly one cell, and that cell lies on
/// the grid.
pub proof fn lemma_target_cell(x: int, y: int, r: int, c: int, idx: int)
    requires
        0 <= x,
        0 <= y,
        0 <= r < 32,
        0 <= c < 64,
        0 <= idx < 2048,
    ensures
        0 <= target_cell(x, y, r, c) < 2048,
        ((cell_row(idx) - y) % 32 == r && (cell_col(idx) - x) % 64 == c) <==> idx == target_cell(x, y, r, c),
{
    let col = (x + c) % 64;
    let row = (y + r) % 32;
    let t = col + 64 * row;
    assert(t % 64 == col && t / 64 == row);
    assert((col - x) % 64 == c);
    assert((row - y) % 32 == r);
    if (cell_row(idx) - y) % 32 == r && (cell_col(idx) - x) % 64 == c {
        assert(cell_col(idx) == col);
        assert(cell_row(idx) == row);
        assert(idx == cell_col(idx) + 64 * cell_row(idx));
    }
}

} // verus!

verus! {

/// Whether some lit cell of `screen` is among those `covers_before` names.
pub open spec fn collides_before(screen: Seq<bool>, ram: Seq<u8>, i: int, x: int, y: int, n: int, r: int, c: int) -> bool {
    exists|idx: int|
        0 <= idx < screen.len() && screen[idx] && #[trigger] covers_before(ram, i, x, y, n, idx, r, c)
}

/// Two prefixes of the sprite that cover the same cells collide alike.
pub proof fn lemma_collides_same(screen: Seq<bool>, ram: Seq<u8>, i: int, x: int, y: int, n: int, r1: int, c1: int, r2: int, c2: int)
    requires
        forall|idx: int| 0 <= idx < screen.len() ==> #[trigger] covers_before(ram, i, x, y, n, idx, r1, c1)
            == covers_before(ram, i, x, y, n, idx, r2, c2),
    ensures
        collides_before(screen, ram, i, x, y, n, r1, c1) == collides_before(screen, ram, i, x, y, n, r2, c2),
{
    if collides_before(screen, ram, i, x, y, n, r1, c1) {
        let w = choose|idx: int|
            0 <= idx < screen.len() && screen[idx] && #[trigger] covers_before(ram, i, x, y, n, idx, r1, c1);
        assert(covers_before(ram, i, x, y, n, w, r2, c2));
    }
    if collides_before(screen, ram, i, x, y, n, r2, c2) {
        let w = choose|idx: int|
            0 <= idx < screen.len() && screen[idx] && #[trigger] covers_before(ram, i, x, y, n, idx, r2, c2);
        assert(covers_before(ram, i, x, y, n, w, r1, c1));
    }
}

} // verus!
