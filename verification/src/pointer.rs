//! From where a pointer stands to the cells that a click on it toggles.

use vstd::prelude::*;

verus! {

/// The coordinate in `0..cap` that is nearest to `x`.
pub open spec fn clamped(x: int, cap: int) -> int {
    if x < 0 {
        0
    } else if x >= cap {
        cap - 1
    } else {
        x
    }
}

/// The five cells of a glider drawn round column `x` of row `y`, each
/// brought onto a grid of `width` by `height` cells: the cell itself, the
/// one after it, the two in the row above at and before its column, and the
/// one in the row below before its column.
pub open spec fn glider_round(x: int, y: int, width: int, height: int) -> Seq<(usize, usize)> {
    seq![
        (clamped(y, height) as usize, clamped(x, width) as usize),
        (clamped(y, height) as usize, clamped(x + 1, width) as usize),
        (clamped(y - 1, height) as usize, clamped(x, width) as usize),
        (clamped(y - 1, height) as usize, clamped(x - 1, width) as usize),
        (clamped(y + 1, height) as usize, clamped(x - 1, width) as usize),
    ]
}

/// Brings a coordinate that may lie off the grid onto the nearest row or
/// column of a side that is `cap` cells long.
pub fn in_bounds(x: isize, cap: isize) -> (coord: usize)
    requires
        cap >= 1,
    ensures
        coord == clamped(x as int, cap as int),
        coord < cap,
{
    if x < 0 {
        0
    } else if x >= cap {
        (cap - 1) as usize
    } else {
        x as usize
    }
}

/// The cells that a click at column `x` of row `y` toggles when it draws a
/// glider there.
pub fn glider_cells(x: isize, y: isize, width: isize, height: isize) -> (cells: Vec<
    (usize, usize),
>)
    requires
        width >= 1,
        height >= 1,
        isize::MIN < x < isize::MAX,
        isize::MIN < y < isize::MAX,
    ensures
        cells@ == glider_round(x as int, y as int, width as int, height as int),
{
    let row = in_bounds(y, height);
    let col = in_bounds(x, width);
    let mut cells: Vec<(usize, usize)> = Vec::new();
    cells.push((row, col));
    cells.push((row, in_bounds(x + 1, width)));
    cells.push((in_bounds(y - 1, height), col));
    cells.push((in_bounds(y - 1, height), in_bounds(x - 1, width)));
    cells.push((in_bounds(y + 1, height), in_bounds(x - 1, width)));
    assert(cells@ =~= glider_round(x as int, y as int, width as int, height as int));
    cells
}

/// The cells that a click on column `col` toggles when it takes the whole
/// column: one for each of the first `rows` rows, from the top.
pub fn column_cells(col: usize, rows: usize) -> (cells: Vec<(usize, usize)>)
    ensures
        cells@ == Seq::new(rows as nat, |row: int| (row as usize, col)),
{
    let mut cells: Vec<(usize, usize)> = Vec::new();
    for r in 0..rows
        invariant
            cells@ == Seq::new(r as nat, |row: int| (row as usize, col)),
    {
        cells.push((r, col));
        assert(cells@ =~= Seq::new((r + 1) as nat, |row: int| (row as usize, col)));
    }
    cells
}

} // verus!
