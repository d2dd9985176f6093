//! The universe: a grid stored in two bit sets, with the list of its live
//! cells kept beside it.

use vstd::prelude::*;
use fixedbitset::FixedBitSet;
use crate::bits::{bit_at, bit_values, copy_bits};
use crate::grid::{live_prefix, tally, wrap, Grid};
use crate::laws::{lemma_cell_index, lemma_toggle_all_dims, lemma_wrap_step};

verus! {

/// Why an operation on a universe was refused.
#[derive(Debug, Clone, Copy, PartialEq, Eq)]
pub enum GridError {
    /// A universe was asked for with a side of zero cells.
    InvalidDimension,
    /// A coordinate does not name a cell of the universe.
    OutOfBounds,
}

/// A toroidal Game of Life universe.
pub struct Universe {
    width: usize,
    height: usize,
    cells: FixedBitSet,
    old_cells: FixedBitSet,
    live_cells: Vec<(usize, usize)>,
}

/// The coordinate one step back on a side of the torus.
fn before(coord: usize, side: usize) -> (wrapped: usize)
    requires
        coord < side,
    ensures
        wrapped == wrap(coord - 1, side as nat),
        wrapped < side,
{
    proof {
        lemma_wrap_step(coord - 1, side as nat);
    }
    if coord == 0 {
        side - 1
    } else {
        coord - 1
    }
}

/// The coordinate one step on along a side of the torus.
fn after(coord: usize, side: usize) -> (wrapped: usize)
    requires
        coord < side,
    ensures
        wrapped == wrap(coord + 1, side as nat),
        wrapped < side,
{
    proof {
        lemma_wrap_step(coord + 1, side as nat);
    }
    if coord == side - 1 {
        0
    } else {
        coord + 1
    }
}

/// Whether a universe of this size can be built: its entries can be numbered
/// in `usize`, the glider's anchor can be computed in `usize`, and the glider
/// lies within the grid.
pub open spec fn seedable(width: nat, height: nat) -> bool {
    &&& width >= 1
    &&& height >= 1
    &&& width * height <= usize::MAX
    &&& width * width <= usize::MAX
    &&& Grid::glider_fits(width, height)
}

/// The length of a side after a change of size that names it, or leaves it
/// out.
pub open spec fn side_after(named: Option<usize>, current: nat) -> nat {
    match named {
        Some(length) => length as nat,
        None => current,
    }
}

/// Whether a universe of this size can be built.
pub fn is_seedable(width: usize, height: usize) -> (fits: bool)
    ensures
        fits == seedable(width as nat, height as nat),
{
    if width == 0 || height == 0 {
        return false;
    }
    let size = match width.checked_mul(height) {
        Some(size) => size,
        None => {
            return false;
        },
    };
    let square = match width.checked_mul(width) {
        Some(square) => square,
        None => {
            return false;
        },
    };
    assert(size >= width) by (nonlinear_arith)
        requires
            size == width * height,
            height >= 1,
    ;
    let anchor = square / 4 + height / 4;
    anchor > width && anchor + 1 < size && anchor <= size - width
}

impl View for Universe {
    type V = Grid;

    /// The grid of the current generation.
    closed spec fn view(&self) -> Grid {
        Grid {
            width: self.width as nat,
            height: self.height as nat,
            cells: bit_values(self.cells),
        }
    }
}

impl Universe {
    /// The grid that the scratch buffer holds: during a step, the
    /// generation before.
    spec fn previous(&self) -> Grid {
        Grid {
            width: self.width as nat,
            height: self.height as nat,
            cells: bit_values(self.old_cells),
        }
    }

    /// Both buffers have one bit for each cell of a grid whose entries can
    /// be numbered in `usize`.
    spec fn buffers_wf(&self) -> bool {
        &&& self@.wf()
        &&& self.previous().wf()
        &&& self.width * self.height <= usize::MAX
    }

    /// The universe's invariant: the buffers are well formed and the live
    /// list names exactly the live cells of the current generation, in
    /// row-major order.
    pub closed spec fn wf(&self) -> bool {
        &&& self.buffers_wf()
        &&& self.live_cells@ == self@.live()
    }

    /// The grid of a universe that meets its invariant is well formed, and
    /// its entries can be numbered in `usize`.
    pub proof fn lemma_wf_grid(&self)
        requires
            self.wf(),
        ensures
            self@.wf(),
            self@.width * self@.height <= usize::MAX,
    {
    }

    /// The entry at which the cell `(row, col)` stands in either buffer.
    fn get_index(&self, row: usize, col: usize) -> (idx: usize)
        requires
            self.buffers_wf(),
            self@.contains(row as int, col as int),
        ensures
            idx == self@.index(row as int, col as int),
            idx < self@.cells.len(),
    {
        proof {
            lemma_cell_index(self.width as int, self.height as int, row as int, col as int);
        }
        row * self.width + col
    }

    /// What the cell `(row, col)` of the generation before adds to a
    /// neighbour count.
    fn previous_count(&self, row: usize, col: usize) -> (count: u8)
        requires
            self.buffers_wf(),
            self@.contains(row as int, col as int),
        ensures
            count == tally(self.previous().alive(row as int, col as int)),
            count <= 1,
    {
        let idx = self.get_index(row, col);
        if bit_at(&self.old_cells, idx) {
            1
        } else {
            0
        }
    }

    /// The number of live cells, in the generation before, among the eight
    /// wrapped neighbours of `(row, col)`.
    fn live_neighbor_count(&self, row: usize, col: usize) -> (count: u8)
        requires
            self.buffers_wf(),
            self@.contains(row as int, col as int),
        ensures
            count == self.previous().live_neighbors(row as int, col as int),
    {
        let mut count: u8 = 0;
        let north = before(row, self.height);
        let south = after(row, self.height);
        let west = before(col, self.width);
        let east = after(col, self.width);
        proof {
            lemma_wrap_step(row as int, self.height as nat);
            lemma_wrap_step(col as int, self.width as nat);
        }
        count += self.previous_count(north, west);
        count += self.previous_count(north, col);
        count += self.previous_count(north, east);
        count += self.previous_count(row, west);
        count += self.previous_count(row, east);
        count += self.previous_count(south, west);
        count += self.previous_count(south, col);
        count += self.previous_count(south, east);
        count
    }

    /// Rebuilds the live list from the current generation, row by row.
    fn refresh_live_cell_list(&mut self)
        requires
            old(self).buffers_wf(),
        ensures
            final(self).wf(),
            final(self)@ == old(self)@,
            final(self).previous() == old(self).previous(),
    {
        let width = self.width;
        let height = self.height;
        self.live_cells.clear();
        assert(0 * width == 0 && height * width == width * height) by (nonlinear_arith);
        for row in 0..height
            invariant
                height * width == width * height,
                self.buffers_wf(),
                self.width == width,
                self.height == height,
                self@ == old(self)@,
                self.previous() == old(self).previous(),
                self.live_cells@ == live_prefix(self@.cells, width as nat, (row * width) as nat),
        {
            for col in 0..width
                invariant
                    row < height,
                    self.buffers_wf(),
                    self.width == width,
                    self.height == height,
                    self@ == old(self)@,
                    self.previous() == old(self).previous(),
                    self.live_cells@ == live_prefix(
                        self@.cells,
                        width as nat,
                        (row * width + col) as nat,
                    ),
            {
                let idx = self.get_index(row, col);
                proof {
                    lemma_cell_index(width as int, height as int, row as int, col as int);
                }
                if bit_at(&self.cells, idx) {
                    self.live_cells.push((row, col));
                }
            }
            assert(row * width + width == (row + 1) * width) by (nonlinear_arith);
        }
    }

    /// Sets the five cells of a glider round entry `idx`.
    fn add_glider(&mut self, idx: usize)
        requires
            old(self).buffers_wf(),
            idx >= old(self)@.width + 1,
            idx + 1 < old(self)@.cells.len(),
            idx + old(self)@.width - 1 < old(self)@.cells.len(),
        ensures
            final(self).buffers_wf(),
            final(self)@ == old(self)@.seeded(idx as int),
            final(self).previous() == old(self).previous(),
    {
        self.cells.set(idx, true);
        self.cells.set(idx + 1, true);
        self.cells.set(idx - self.width, true);
        self.cells.set(idx - self.width - 1, true);
        self.cells.set(idx + self.width - 1, true);
        assert(self@.cells =~= old(self)@.seeded(idx as int).cells);
    }

    /// Clears both buffers, seeds the glider of the current size and
    /// rebuilds the live list.
    fn reset_cells(&mut self)
        requires
            seedable(old(self)@.width, old(self)@.height),
        ensures
            final(self).wf(),
            final(self)@ == Grid::glider(old(self)@.width, old(self)@.height),
    {
        let size = self.width * self.height;
        self.cells = FixedBitSet::with_capacity(size);
        self.old_cells = FixedBitSet::with_capacity(size);
        self.add_glider((self.width * self.width / 4) + (self.height / 4));
        self.refresh_live_cell_list();
    }

    /// A universe of the given size that holds one glider.
    ///
    /// A side of zero cells is refused. Sizes in which the glider would not
    /// lie within the grid are not accepted.
    pub fn new(width: usize, height: usize) -> (made: Result<Universe, GridError>)
        requires
            width >= 1 && height >= 1 ==> seedable(width as nat, height as nat),
        ensures
            match made {
                Ok(universe) => {
                    &&& width >= 1
                    &&& height >= 1
                    &&& universe.wf()
                    &&& universe@ == Grid::glider(width as nat, height as nat)
                },
                Err(error) => error == GridError::InvalidDimension && (width == 0 || height == 0),
            },
    {
        if width == 0 || height == 0 {
            return Err(GridError::InvalidDimension);
        }
        let size = width * height;
        let mut universe = Universe {
            width,
            height,
            cells: FixedBitSet::with_capacity(size),
            old_cells: FixedBitSet::with_capacity(size),
            live_cells: Vec::new(),
        };
        universe.add_glider((width * width / 4) + (height / 4));
        universe.refresh_live_cell_list();
        Ok(universe)
    }

    /// The number of columns.
    pub fn width(&self) -> (width: usize)
        ensures
            width == self@.width,
    {
        self.width
    }

    /// The number of rows.
    pub fn height(&self) -> (height: usize)
        ensures
            height == self@.height,
    {
        self.height
    }

    /// The state of the cell at `(row, col)`, or `OutOfBounds` when the
    /// universe has no such cell.
    pub fn get_cell(&self, row: usize, col: usize) -> (cell: Result<bool, GridError>)
        requires
            self.wf(),
        ensures
            cell == if self@.contains(row as int, col as int) {
                Ok::<bool, GridError>(self@.alive(row as int, col as int))
            } else {
                Err::<bool, GridError>(GridError::OutOfBounds)
            },
    {
        if row >= self.height || col >= self.width {
            return Err(GridError::OutOfBounds);
        }
        let idx = self.get_index(row, col);
        Ok(bit_at(&self.cells, idx))
    }

    /// The coordinates of every live cell, row by row and left to right
    /// within a row.
    pub fn get_live_cells(&self) -> (cells: &[(usize, usize)])
        requires
            self.wf(),
        ensures
            cells@ == self@.live(),
    {
        self.live_cells.as_slice()
    }

    /// Advances the universe by as many generations as are asked for, one
    /// after the other.
    pub fn advance(&mut self, generations: usize)
        requires
            old(self).wf(),
        ensures
            final(self).wf(),
            final(self)@ == old(self)@.step_many(generations as nat),
    {
        for done in 0..generations
            invariant
                self.wf(),
                self@ == old(self)@.step_many(done as nat),
        {
            self.tick();
        }
    }

    /// Inverts the cell at `(row, col)` and rebuilds the live list, or
    /// refuses with `OutOfBounds` and changes nothing when the universe has
    /// no such cell.
    pub fn toggle_cell(&mut self, row: usize, col: usize) -> (done: Result<(), GridError>)
        requires
            old(self).wf(),
        ensures
            final(self).wf(),
            match done {
                Ok(_) => {
                    &&& old(self)@.contains(row as int, col as int)
                    &&& final(self)@ == old(self)@.toggle(row as int, col as int)
                },
                Err(error) => {
                    &&& error == GridError::OutOfBounds
                    &&& !old(self)@.contains(row as int, col as int)
                    &&& *final(self) == *old(self)
                },
            },
    {
        if row >= self.height || col >= self.width {
            return Err(GridError::OutOfBounds);
        }
        let idx = self.get_index(row, col);
        self.cells.toggle(idx);
        self.refresh_live_cell_list();
        Ok(())
    }

    /// Inverts every cell that `cells` names, a cell once for each time it
    /// is named, and then rebuilds the live list once. When any of the
    /// coordinates names no cell of the universe, refuses with
    /// `OutOfBounds` and changes nothing.
    pub fn toggle_cells(&mut self, cells: &[(usize, usize)]) -> (done: Result<(), GridError>)
        requires
            old(self).wf(),
        ensures
            final(self).wf(),
            match done {
                Ok(_) => {
                    &&& old(self)@.contains_all(cells@)
                    &&& final(self)@ == old(self)@.toggle_all(cells@)
                },
                Err(error) => {
                    &&& error == GridError::OutOfBounds
                    &&& !old(self)@.contains_all(cells@)
                    &&& *final(self) == *old(self)
                },
            },
    {
        for k in 0..cells.len()
            invariant
                *self == *old(self),
                self.wf(),
                forall|j: int|
                    0 <= j < k ==> self@.contains(
                        (#[trigger] cells@[j]).0 as int,
                        cells@[j].1 as int,
                    ),
        {
            let (row, col) = cells[k];
            if row >= self.height || col >= self.width {
                return Err(GridError::OutOfBounds);
            }
        }
        for k in 0..cells.len()
            invariant
                self.buffers_wf(),
                old(self)@.wf(),
                old(self)@.contains_all(cells@),
                self@ == old(self)@.toggle_all(cells@.take(k as int)),
        {
            let (row, col) = cells[k];
            proof {
                assert(old(self)@.contains_all(cells@.take(k as int)));
                lemma_toggle_all_dims(old(self)@, cells@.take(k as int));
                assert(cells@.take(k + 1).drop_last() =~= cells@.take(k as int));
            }
            let idx = self.get_index(row, col);
            self.cells.toggle(idx);
        }
        assert(cells@.take(cells@.len() as int) =~= cells@);
        self.refresh_live_cell_list();
        Ok(())
    }

    /// Gives the universe a new size. A side left out keeps its length.
    ///
    /// With both sides left out nothing changes. Otherwise every cell is
    /// cleared and the glider of the new size is seeded, whatever the
    /// universe held; a side of zero cells is refused with
    /// `InvalidDimension` and changes nothing.
    pub fn set_size(&mut self, width: Option<usize>, height: Option<usize>) -> (done: Result<
        (),
        GridError,
    >)
        requires
            old(self).wf(),
            match (width, height) {
                (None, None) => true,
                (Some(w), None) => w >= 1 ==> seedable(w as nat, old(self)@.height),
                (None, Some(h)) => h >= 1 ==> seedable(old(self)@.width, h as nat),
                (Some(w), Some(h)) => w >= 1 && h >= 1 ==> seedable(w as nat, h as nat),
            },
        ensures
            final(self).wf(),
            match done {
                Ok(_) => if width.is_none() && height.is_none() {
                    *final(self) == *old(self)
                } else {
                    &&& side_after(width, old(self)@.width) >= 1
                    &&& side_after(height, old(self)@.height) >= 1
                    &&& final(self)@ == Grid::glider(
                        side_after(width, old(self)@.width),
                        side_after(height, old(self)@.height),
                    )
                },
                Err(error) => {
                    &&& error == GridError::InvalidDimension
                    &&& width.is_some() || height.is_some()
                    &&& side_after(width, old(self)@.width) == 0 || side_after(
                        height,
                        old(self)@.height,
                    ) == 0
                    &&& *final(self) == *old(self)
                },
            },
    {
        if width.is_none() && height.is_none() {
            return Ok(());
        }
        let new_width = match width {
            Some(w) => w,
            None => self.width,
        };
        let new_height = match height {
            Some(h) => h,
            None => self.height,
        };
        if new_width == 0 || new_height == 0 {
            return Err(GridError::InvalidDimension);
        }
        self.width = new_width;
        self.height = new_height;
        self.reset_cells();
        Ok(())
    }

    /// Advances the universe by one generation: every cell of the new
    /// generation is decided from the old one alone, and the live list is
    /// that of the new generation.
    pub fn tick(&mut self)
        requires
            old(self).wf(),
        ensures
            final(self).wf(),
            final(self)@ == old(self)@.step(),
    {
        let width = self.width;
        let height = self.height;
        self.live_cells.clear();
        copy_bits(&mut self.old_cells, &self.cells);
        let ghost prev = self@;
        let ghost next = prev.step();
        assert(0 * width == 0 && height * width == width * height) by (nonlinear_arith);
        for row in 0..height
            invariant
                height * width == width * height,
                self.buffers_wf(),
                self.width == width,
                self.height == height,
                self.previous() == prev,
                next == prev.step(),
                forall|j: int| 0 <= j < row * width ==> bit_values(self.cells)[j] == next.cells[j],
                self.live_cells@ == live_prefix(next.cells, width as nat, (row * width) as nat),
        {
            for col in 0..width
                invariant
                    row < height,
                    self.buffers_wf(),
                    self.width == width,
                    self.height == height,
                    self.previous() == prev,
                    next == prev.step(),
                    forall|j: int|
                        0 <= j < row * width + col ==> bit_values(self.cells)[j] == next.cells[j],
                    self.live_cells@ == live_prefix(
                        next.cells,
                        width as nat,
                        (row * width + col) as nat,
                    ),
            {
                let idx = self.get_index(row, col);
                proof {
                    lemma_cell_index(width as int, height as int, row as int, col as int);
                }
                let cell = bit_at(&self.old_cells, idx);
                let live_neighbors = self.live_neighbor_count(row, col);
                let new_cell = match (cell, live_neighbors) {
                    (false, 3) => true,
                    (false, _) => false,
                    (true, 2) => true,
                    (true, 3) => true,
                    (true, _) => false,
                };
                assert(new_cell == next.cells[idx as int]);
                if new_cell {
                    self.live_cells.push((row, col));
                }
                self.cells.set(idx, new_cell);
            }
            assert(row * width + width == (row + 1) * width) by (nonlinear_arith);
        }
        assert(bit_values(self.cells) =~= next.cells);
    }
}

} // verus!
