//! What holds of every grid, proved from the definitions of the model.

use vstd::prelude::*;
use vstd::arithmetic::div_mod::{
    lemma_fundamental_div_mod, lemma_fundamental_div_mod_converse, lemma_mod_bound,
};
use crate::grid::{coords_of, entry_of, live_prefix, population_prefix, wrap, Grid};

verus! {

/// The entry of cell `(row, col)` lies inside a `width * height` grid, and
/// dividing it by the width gives the coordinates back.
pub proof fn lemma_cell_index(width: int, height: int, row: int, col: int)
    requires
        0 <= row < height,
        0 <= col < width,
    ensures
        0 <= row * width + col < width * height,
        (row * width + col) / width == row,
        (row * width + col) % width == col,
{
    assert(row * width <= (height - 1) * width) by (nonlinear_arith)
        requires
            0 <= row <= height - 1,
            0 <= width,
    ;
    assert((height - 1) * width + width == width * height) by (nonlinear_arith);
    assert(0 <= row * width) by (nonlinear_arith)
        requires
            0 <= row,
            0 <= width,
    ;
    lemma_fundamental_div_mod_converse(row * width + col, width, row, col);
}

/// Wrapping a coordinate that is at most one step outside `0..side` brings
/// the step before the first to the last, the step after the last to the
/// first, and leaves the others where they are.
pub proof fn lemma_wrap_step(coord: int, side: nat)
    requires
        side >= 1,
        -1 <= coord <= side,
    ensures
        wrap(coord, side) == if coord == -1 {
            side - 1
        } else if coord == side {
            0
        } else {
            coord
        },
{
    if coord == -1 {
        lemma_fundamental_div_mod_converse(coord, side as int, -1, side - 1);
    } else if coord == side {
        lemma_fundamental_div_mod_converse(coord, side as int, 1, 0);
    } else {
        lemma_fundamental_div_mod_converse(coord, side as int, 0, coord);
    }
}

/// Entry `idx` of a grid stands at row `idx / width` and column
/// `idx % width`, both of which lie inside the grid.
pub proof fn lemma_cell_coords(width: int, height: int, idx: int)
    requires
        width >= 1,
        0 <= idx < width * height,
    ensures
        0 <= idx / width < height,
        0 <= idx % width < width,
        (idx / width) * width + idx % width == idx,
{
    lemma_fundamental_div_mod(idx, width);
    lemma_mod_bound(idx, width);
    let q = idx / width;
    let r = idx % width;
    assert(0 <= q < height && q * width == width * q) by (nonlinear_arith)
        requires
            width >= 1,
            idx == width * q + r,
            0 <= r < width,
            0 <= idx < width * height,
    ;
}

/// Taking an entry apart into row and column and putting it together again
/// gives the entry back, as long as entries can be numbered in `usize`.
pub proof fn lemma_coords_entry(width: nat, height: nat, idx: int)
    requires
        width >= 1,
        0 <= idx < width * height <= usize::MAX,
    ensures
        entry_of(coords_of(idx, width), width) == idx,
        coords_of(idx, width).0 < height,
        coords_of(idx, width).1 < width,
{
    lemma_cell_coords(width as int, height as int, idx);
    let q = idx / width as int;
    assert(q <= idx) by (nonlinear_arith)
        requires
            width >= 1,
            q >= 0,
            q * width + idx % width as int == idx,
            idx % width as int >= 0,
    ;
}

/// A run of dead entries adds nothing to the live list, nor to the
/// population.
pub proof fn lemma_dead_run(cells: Seq<bool>, width: nat, from: nat, upto: nat)
    requires
        from <= upto,
        forall|idx: int| from <= idx < upto ==> !#[trigger] cells[idx],
    ensures
        live_prefix(cells, width, upto) == live_prefix(cells, width, from),
        population_prefix(cells, upto) == population_prefix(cells, from),
    decreases upto - from,
{
    if from < upto {
        lemma_dead_run(cells, width, from, (upto - 1) as nat);
        assert(!cells[upto - 1]);
    }
}

/// The live list drawn from the first `upto` entries names live cells
/// only, each where it stands, in strictly ascending entry order, and leaves
/// no live entry out; so it is as long as the population is large.
pub proof fn lemma_live_prefix_exact(cells: Seq<bool>, width: nat, height: nat, upto: nat)
    requires
        width >= 1,
        upto <= width * height <= usize::MAX,
    ensures
        forall|k: int|
            0 <= k < live_prefix(cells, width, upto).len() ==> {
                let coords = #[trigger] live_prefix(cells, width, upto)[k];
                &&& 0 <= entry_of(coords, width) < upto
                &&& cells[entry_of(coords, width)]
                &&& coords.0 < height
                &&& coords.1 < width
            },
        forall|i: int, j: int|
            0 <= i < j < live_prefix(cells, width, upto).len() ==> entry_of(
                #[trigger] live_prefix(cells, width, upto)[i],
                width,
            ) < entry_of(#[trigger] live_prefix(cells, width, upto)[j], width),
        forall|idx: int|
            0 <= idx < upto && #[trigger] cells[idx] ==> live_prefix(cells, width, upto).contains(
                coords_of(idx, width),
            ),
        live_prefix(cells, width, upto).len() == population_prefix(cells, upto),
    decreases upto,
{
    if upto > 0 {
        let last = (upto - 1) as int;
        let before = live_prefix(cells, width, last as nat);
        let list = live_prefix(cells, width, upto);
        lemma_live_prefix_exact(cells, width, height, last as nat);
        lemma_coords_entry(width, height, last);
        if cells[last] {
            assert(list == before.push(coords_of(last, width)));
            assert(list[before.len() as int] == coords_of(last, width));
            assert forall|idx: int| 0 <= idx < upto && #[trigger] cells[idx] implies list.contains(
                coords_of(idx, width),
            ) by {
                if idx < last {
                    let k = choose|k: int|
                        0 <= k < before.len() && before[k] == coords_of(idx, width);
                    assert(list[k] == coords_of(idx, width));
                }
            }
        } else {
            assert(list == before);
        }
    }
}

/// The invariant of the live list: it names exactly the live cells of the
/// grid, each once, row by row and left to right within a row.
pub proof fn lemma_live_exact(grid: Grid)
    requires
        grid.wf(),
        grid.width * grid.height <= usize::MAX,
    ensures
        forall|k: int|
            0 <= k < grid.live().len() ==> {
                let coords = #[trigger] grid.live()[k];
                &&& grid.contains(coords.0 as int, coords.1 as int)
                &&& grid.alive(coords.0 as int, coords.1 as int)
            },
        forall|i: int, j: int|
            0 <= i < j < grid.live().len() ==> grid.index(
                (#[trigger] grid.live()[i]).0 as int,
                grid.live()[i].1 as int,
            ) < grid.index((#[trigger] grid.live()[j]).0 as int, grid.live()[j].1 as int),
        forall|row: int, col: int|
            grid.contains(row, col) && #[trigger] grid.alive(row, col) ==> grid.live().contains(
                (row as usize, col as usize),
            ),
        grid.live().len() == grid.population(),
{
    lemma_live_prefix_exact(grid.cells, grid.width, grid.height, grid.cells.len());
    assert forall|row: int, col: int|
        grid.contains(row, col) && #[trigger] grid.alive(row, col) implies grid.live().contains(
        (row as usize, col as usize),
    ) by {
        lemma_cell_index(grid.width as int, grid.height as int, row, col);
        assert(grid.cells[grid.index(row, col)]);
    }
}

/// The glider of a grid at least three cells wide is five cells: in entry
/// order, the two above the anchor, the anchor and the entry after it, and
/// the one below.
pub proof fn lemma_glider_live(width: nat, height: nat)
    requires
        width >= 3,
        Grid::glider_fits(width, height),
        width * height <= usize::MAX,
    ensures
        Grid::glider(width, height).live() == ({
            let anchor = Grid::glider_anchor(width, height) as int;
            seq![
                coords_of(anchor - width - 1, width),
                coords_of(anchor - width, width),
                coords_of(anchor, width),
                coords_of(anchor + 1, width),
                coords_of(anchor + width - 1, width),
            ]
        }),
        Grid::glider(width, height).live().len() == 5,
        Grid::glider(width, height).population() == 5,
{
    let grid = Grid::glider(width, height);
    let cells = grid.cells;
    let anchor = Grid::glider_anchor(width, height) as int;
    let size = width * height;
    lemma_dead_run(cells, width, 0, (anchor - width - 1) as nat);
    assert(cells[anchor - width - 1]);
    assert(cells[anchor - width]);
    lemma_dead_run(cells, width, (anchor - width + 1) as nat, anchor as nat);
    assert(cells[anchor]);
    assert(cells[anchor + 1]);
    lemma_dead_run(cells, width, (anchor + 2) as nat, (anchor + width - 1) as nat);
    assert(cells[anchor + width - 1]);
    lemma_dead_run(cells, width, (anchor + width) as nat, size);
    let first = live_prefix(cells, width, (anchor - width) as nat);
    let second = live_prefix(cells, width, (anchor - width + 1) as nat);
    let third = live_prefix(cells, width, (anchor + 1) as nat);
    let fourth = live_prefix(cells, width, (anchor + 2) as nat);
    let fifth = live_prefix(cells, width, (anchor + width) as nat);
    assert(first == Seq::<(usize, usize)>::empty().push(coords_of(anchor - width - 1, width)));
    assert(second == first.push(coords_of(anchor - width, width)));
    assert(third == second.push(coords_of(anchor, width)));
    assert(fourth == third.push(coords_of(anchor + 1, width)));
    assert(fifth == fourth.push(coords_of(anchor + width - 1, width)));
    assert(grid.live() =~= seq![
        coords_of(anchor - width - 1, width),
        coords_of(anchor - width, width),
        coords_of(anchor, width),
        coords_of(anchor + 1, width),
        coords_of(anchor + width - 1, width),
    ]);
    lemma_live_prefix_exact(cells, width, height, size);
}

/// The glider lies within every grid that is at least four cells wide and
/// at least as high as it is wide.
pub proof fn lemma_glider_fits(width: nat, height: nat)
    requires
        4 <= width <= height,
    ensures
        Grid::glider_fits(width, height),
{
    let square = width * width;
    let size = width * height;
    assert(square >= 4 * width && square <= size && size >= 4 * height) by (nonlinear_arith)
        requires
            square == width * width,
            size == width * height,
            4 <= width <= height,
    ;
}

/// The torus joins the first row to the last: the cell above `(0, col)` is
/// `(height - 1, col)` and the cell below `(height - 1, col)` is `(0, col)`,
/// so each is counted among the other's neighbours.
pub proof fn lemma_rows_wrap(grid: Grid, col: int)
    requires
        grid.wf(),
        0 <= col < grid.width,
    ensures
        grid.wrapped_alive(-1, col) == grid.alive(grid.height - 1, col),
        grid.wrapped_alive(grid.height as int, col) == grid.alive(0, col),
        grid.alive(grid.height - 1, col) ==> grid.live_neighbors(0, col) >= 1,
        grid.alive(0, col) ==> grid.live_neighbors(grid.height - 1, col) >= 1,
{
    lemma_wrap_step(-1, grid.height);
    lemma_wrap_step(grid.height as int, grid.height);
    lemma_wrap_step(col, grid.width);
}

/// The torus joins the first column to the last: the cell before
/// `(row, 0)` is `(row, width - 1)` and the cell after `(row, width - 1)` is
/// `(row, 0)`, so each is counted among the other's neighbours.
pub proof fn lemma_cols_wrap(grid: Grid, row: int)
    requires
        grid.wf(),
        0 <= row < grid.height,
    ensures
        grid.wrapped_alive(row, -1) == grid.alive(row, grid.width - 1),
        grid.wrapped_alive(row, grid.width as int) == grid.alive(row, 0),
        grid.alive(row, grid.width - 1) ==> grid.live_neighbors(row, 0) >= 1,
        grid.alive(row, 0) ==> grid.live_neighbors(row, grid.width - 1) >= 1,
{
    lemma_wrap_step(-1, grid.width);
    lemma_wrap_step(grid.width as int, grid.width);
    lemma_wrap_step(row, grid.height);
}

/// Toggling inverts the cell that is named and leaves every other cell as
/// it was.
pub proof fn lemma_toggle_one_cell(grid: Grid, row: int, col: int, at_row: int, at_col: int)
    requires
        grid.wf(),
        grid.contains(row, col),
        grid.contains(at_row, at_col),
    ensures
        grid.toggle(row, col).wf(),
        grid.toggle(row, col).alive(at_row, at_col) == if at_row == row && at_col == col {
            !grid.alive(at_row, at_col)
        } else {
            grid.alive(at_row, at_col)
        },
{
    lemma_cell_index(grid.width as int, grid.height as int, row, col);
    lemma_cell_index(grid.width as int, grid.height as int, at_row, at_col);
}

/// Toggling a cell twice gives the grid back, and with it the live list.
pub proof fn lemma_toggle_twice(grid: Grid, row: int, col: int)
    requires
        grid.wf(),
        grid.contains(row, col),
    ensures
        grid.toggle(row, col).toggle(row, col) == grid,
        grid.toggle(row, col).toggle(row, col).live() == grid.live(),
{
    lemma_cell_index(grid.width as int, grid.height as int, row, col);
    assert(grid.toggle(row, col).toggle(row, col).cells =~= grid.cells);
}

/// Toggling cells of a grid changes neither of its sides, and leaves it
/// well formed.
pub proof fn lemma_toggle_all_dims(grid: Grid, coords: Seq<(usize, usize)>)
    requires
        grid.wf(),
        grid.contains_all(coords),
    ensures
        grid.toggle_all(coords).width == grid.width,
        grid.toggle_all(coords).height == grid.height,
        grid.toggle_all(coords).wf(),
    decreases coords.len(),
{
    if coords.len() > 0 {
        lemma_toggle_all_dims(grid, coords.drop_last());
        lemma_cell_index(
            grid.width as int,
            grid.height as int,
            coords.last().0 as int,
            coords.last().1 as int,
        );
    }
}

/// A batch of one coordinate is a single toggle.
pub proof fn lemma_toggle_all_single(grid: Grid, row: usize, col: usize)
    ensures
        grid.toggle_all(seq![(row, col)]) == grid.toggle(row as int, col as int),
{
    let batch = seq![(row, col)];
    assert(batch.drop_last() =~= Seq::<(usize, usize)>::empty());
    assert(grid.toggle_all(batch.drop_last()) == grid);
    assert(batch.last() == (row, col));
}

/// A batch toggles as its two halves do, one after the other: the order
/// of the batch is the order of the single toggles.
pub proof fn lemma_toggle_all_concat(
    grid: Grid,
    first: Seq<(usize, usize)>,
    second: Seq<(usize, usize)>,
)
    ensures
        grid.toggle_all(first + second) == grid.toggle_all(first).toggle_all(second),
    decreases second.len(),
{
    if second.len() == 0 {
        assert(first + second =~= first);
    } else {
        lemma_toggle_all_concat(grid, first, second.drop_last());
        assert((first + second).drop_last() =~= first + second.drop_last());
        assert((first + second).last() == second.last());
    }
}

/// In a grid without a live cell no cell has a live neighbour.
pub proof fn lemma_empty_neighbors(grid: Grid, row: int, col: int)
    requires
        grid.wf(),
        grid.is_empty(),
    ensures
        !grid.wrapped_alive(row, col),
        grid.live_neighbors(row, col) == 0,
{
    assert forall|r: int, c: int| !grid.wrapped_alive(r, c) by {
        lemma_mod_bound(r, grid.height as int);
        lemma_mod_bound(c, grid.width as int);
        lemma_cell_index(
            grid.width as int,
            grid.height as int,
            wrap(r, grid.height),
            wrap(c, grid.width),
        );
    }
}

/// A grid without a live cell stays as it is, however many generations
/// pass.
pub proof fn lemma_empty_stays_empty(grid: Grid, generations: nat)
    requires
        grid.wf(),
        grid.is_empty(),
    ensures
        grid.step_many(generations) == grid,
    decreases generations,
{
    if generations > 0 {
        lemma_empty_stays_empty(grid, (generations - 1) as nat);
        assert forall|idx: int| 0 <= idx < grid.cells.len() implies !grid.next_cell(idx) by {
            lemma_empty_neighbors(grid, idx / grid.width as int, idx % grid.width as int);
        }
        assert(grid.step().cells =~= grid.cells);
    }
}

/// A step changes neither side of a grid and leaves it well formed.
pub proof fn lemma_step_wf(grid: Grid)
    requires
        grid.wf(),
    ensures
        grid.step().wf(),
        grid.step().width == grid.width,
        grid.step().height == grid.height,
{
}

} // verus!
