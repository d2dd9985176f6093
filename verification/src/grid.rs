//! The mathematical grid: what a universe is, and what each operation on it
//! means, independent of how the cells are stored.

use vstd::prelude::*;

verus! {

/// A rectangle of cells on a torus. Cell `(row, col)` is entry
/// `row * width + col` of `cells`.
pub struct Grid {
    pub width: nat,
    pub height: nat,
    pub cells: Seq<bool>,
}

/// What a cell adds to a neighbour count: one when alive, nothing when dead.
pub open spec fn tally(alive: bool) -> nat {
    if alive {
        1
    } else {
        0
    }
}

/// The rule of the game: a cell is alive in the next generation when it has
/// exactly three live neighbours, or is alive now and has exactly two.
pub open spec fn next_state(alive: bool, neighbors: nat) -> bool {
    neighbors == 3 || (alive && neighbors == 2)
}

/// `coord` brought into `0..side` by going round the torus.
pub open spec fn wrap(coord: int, side: nat) -> int {
    coord % side as int
}

/// The row and column of entry `idx` in a grid `width` cells wide.
pub open spec fn coords_of(idx: int, width: nat) -> (usize, usize) {
    ((idx / width as int) as usize, (idx % width as int) as usize)
}

/// The entry at which the cell `coords` stands in a grid `width` cells wide.
pub open spec fn entry_of(coords: (usize, usize), width: nat) -> int {
    coords.0 * width + coords.1
}

/// The live coordinates among the first `upto` entries of `cells`, in
/// ascending index order, for a grid `width` cells wide.
pub open spec fn live_prefix(cells: Seq<bool>, width: nat, upto: nat) -> Seq<(usize, usize)>
    decreases upto,
{
    if upto == 0 || width == 0 {
        Seq::empty()
    } else {
        let idx = (upto - 1) as int;
        let before = live_prefix(cells, width, (upto - 1) as nat);
        if cells[idx] {
            before.push(coords_of(idx, width))
        } else {
            before
        }
    }
}

/// How many of the first `upto` entries of `cells` are alive.
pub open spec fn population_prefix(cells: Seq<bool>, upto: nat) -> nat
    decreases upto,
{
    if upto == 0 {
        0
    } else {
        population_prefix(cells, (upto - 1) as nat) + tally(cells[upto - 1])
    }
}

impl Grid {
    /// Both sides are at least one cell long and `cells` has one entry per
    /// cell.
    pub open spec fn wf(self) -> bool {
        &&& self.width >= 1
        &&& self.height >= 1
        &&& self.cells.len() == self.width * self.height
    }

    /// Whether `(row, col)` names a cell of the grid.
    pub open spec fn contains(self, row: int, col: int) -> bool {
        0 <= row < self.height && 0 <= col < self.width
    }

    /// Where cell `(row, col)` stands in `cells`.
    pub open spec fn index(self, row: int, col: int) -> int {
        row * self.width + col
    }

    /// The state of the cell at `(row, col)`.
    pub open spec fn alive(self, row: int, col: int) -> bool {
        self.cells[self.index(row, col)]
    }

    /// The state of the cell that `(row, col)` lands on once each coordinate
    /// is wrapped round its own side of the torus.
    pub open spec fn wrapped_alive(self, row: int, col: int) -> bool {
        self.alive(wrap(row, self.height), wrap(col, self.width))
    }

    /// The number of live cells among the eight wrapped neighbours of
    /// `(row, col)`.
    pub open spec fn live_neighbors(self, row: int, col: int) -> nat {
        tally(self.wrapped_alive(row - 1, col - 1)) + tally(self.wrapped_alive(row - 1, col))
            + tally(self.wrapped_alive(row - 1, col + 1)) + tally(
            self.wrapped_alive(row, col - 1),
        ) + tally(self.wrapped_alive(row, col + 1)) + tally(
            self.wrapped_alive(row + 1, col - 1),
        ) + tally(self.wrapped_alive(row + 1, col)) + tally(self.wrapped_alive(row + 1, col + 1))
    }

    /// The state of entry `idx` one generation on.
    pub open spec fn next_cell(self, idx: int) -> bool {
        next_state(
            self.cells[idx],
            self.live_neighbors(idx / self.width as int, idx % self.width as int),
        )
    }

    /// The grid one generation on: every cell is decided from this grid
    /// alone.
    pub open spec fn step(self) -> Grid {
        Grid {
            width: self.width,
            height: self.height,
            cells: Seq::new(self.cells.len(), |idx: int| self.next_cell(idx)),
        }
    }

    /// The grid `generations` steps on.
    pub open spec fn step_many(self, generations: nat) -> Grid
        decreases generations,
    {
        if generations == 0 {
            self
        } else {
            self.step_many((generations - 1) as nat).step()
        }
    }

    /// The grid with the cell at `(row, col)` inverted.
    pub open spec fn toggle(self, row: int, col: int) -> Grid {
        Grid {
            width: self.width,
            height: self.height,
            cells: self.cells.update(self.index(row, col), !self.alive(row, col)),
        }
    }

    /// The grid after inverting the cells that `coords` names, one after
    /// the other, a cell once for each time it is named.
    pub open spec fn toggle_all(self, coords: Seq<(usize, usize)>) -> Grid
        decreases coords.len(),
    {
        if coords.len() == 0 {
            self
        } else {
            self.toggle_all(coords.drop_last()).toggle(
                coords.last().0 as int,
                coords.last().1 as int,
            )
        }
    }

    /// Whether every coordinate in `coords` names a cell of the grid.
    pub open spec fn contains_all(self, coords: Seq<(usize, usize)>) -> bool {
        forall|k: int|
            0 <= k < coords.len() ==> self.contains(
                (#[trigger] coords[k]).0 as int,
                coords[k].1 as int,
            )
    }

    /// The coordinates of the live cells, row by row and left to right
    /// within a row.
    pub open spec fn live(self) -> Seq<(usize, usize)> {
        live_prefix(self.cells, self.width, self.cells.len())
    }

    /// The number of live cells.
    pub open spec fn population(self) -> nat {
        population_prefix(self.cells, self.cells.len())
    }

    /// Whether no cell is alive.
    pub open spec fn is_empty(self) -> bool {
        forall|idx: int| 0 <= idx < self.cells.len() ==> !#[trigger] self.cells[idx]
    }

    /// The entry round which the glider is placed.
    pub open spec fn glider_anchor(width: nat, height: nat) -> nat {
        width * width / 4 + height / 4
    }

    /// Whether the five glider cells round the anchor all lie within the
    /// `width * height` entries of the grid.
    pub open spec fn glider_fits(width: nat, height: nat) -> bool {
        let anchor = Self::glider_anchor(width, height);
        &&& anchor >= width + 1
        &&& anchor + 1 < width * height
        &&& anchor + width - 1 < width * height
    }

    /// Whether entry `idx` is one of the five cells of a glider placed
    /// round `anchor`: the anchor, the entry after it, the two entries one
    /// row up at and before the anchor's column, and the entry one row down
    /// before the anchor's column.
    pub open spec fn glider_cell(width: nat, anchor: int, idx: int) -> bool {
        idx == anchor || idx == anchor + 1 || idx == anchor - width || idx == anchor - width - 1
            || idx == anchor + width - 1
    }

    /// The grid with a glider placed round `anchor`, over whatever was
    /// alive already.
    pub open spec fn seeded(self, anchor: int) -> Grid {
        Grid {
            width: self.width,
            height: self.height,
            cells: Seq::new(
                self.cells.len(),
                |idx: int| self.cells[idx] || Self::glider_cell(self.width, anchor, idx),
            ),
        }
    }

    /// The grid of the given size in which no cell is alive.
    pub open spec fn dead(width: nat, height: nat) -> Grid {
        Grid { width, height, cells: Seq::new(width * height, |idx: int| false) }
    }

    /// The grid of the given size that holds one glider round the anchor
    /// and nothing else.
    pub open spec fn glider(width: nat, height: nat) -> Grid {
        Self::dead(width, height).seeded(Self::glider_anchor(width, height) as int)
    }
}

} // verus!
