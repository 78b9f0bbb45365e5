use crate::state::{symbol_of, State};
use vstd::prelude::*;

verus! {

/// Probabilities are counted in millionths: a probability of `PROBABILITY_SCALE`
/// is certainty, and every sample drawn for a cell lies below it.
pub const PROBABILITY_SCALE: u32 = 1_000_000;

/// How the edges of the grid are treated when looking for neighbours.
#[derive(Clone, Copy, Debug, PartialEq, Eq, Structural)]
pub enum Adjacency {
    /// A cell has only the neighbours that lie inside the grid.
    Clipped,
    /// Every cell has eight neighbours: the grid wraps around at its edges.
    Toroidal,
}

/// Where a coordinate lands after moving by `d` along an axis of `n` cells,
/// if it lands anywhere.
pub open spec fn shifted(adjacency: Adjacency, x: int, d: int, n: int) -> Option<int> {
    let y = x + d;
    if 0 <= y < n {
        Some(y)
    } else if adjacency == Adjacency::Toroidal {
        Some(y % n)
    } else {
        None
    }
}

/// `(dr, dc)` is one of the eight steps to a Moore neighbour.
pub open spec fn is_offset(dr: int, dc: int) -> bool {
    -1 <= dr <= 1 && -1 <= dc <= 1 && !(dr == 0 && dc == 0)
}

/// What a forest is: its dimensions, its two probabilities (in millionths),
/// its adjacency policy and its cells in row-major order.
pub struct ForestModel {
    pub width: u32,
    pub height: u32,
    pub p: u32,
    pub f: u32,
    pub adjacency: Adjacency,
    pub cells: Seq<State>,
}

impl ForestModel {
    /// A freshly planted forest: every cell holds a tree.
    pub open spec fn planted(width: u32, height: u32, p: u32, f: u32, adjacency: Adjacency) -> ForestModel {
        ForestModel {
            width,
            height,
            p,
            f,
            adjacency,
            cells: Seq::new((width * height) as nat, |i: int| State::Tree),
        }
    }

    pub open spec fn size(self) -> int {
        self.width * self.height
    }

    /// Dimensions are positive, their product fits a `u32`, and there is one
    /// cell per coordinate.
    pub open spec fn wf(self) -> bool {
        &&& self.width >= 1
        &&& self.height >= 1
        &&& self.size() <= u32::MAX
        &&& self.cells.len() == self.size()
    }

    pub open spec fn in_grid(self, row: int, col: int) -> bool {
        0 <= row < self.height && 0 <= col < self.width
    }

    pub open spec fn cell(self, row: int, col: int) -> State {
        self.cells[row * self.width + col]
    }

    /// The cell that the step `(dr, dc)` from `(row, col)` reaches, if any.
    pub open spec fn neighbor_at(self, row: int, col: int, dr: int, dc: int) -> Option<(int, int)> {
        match (
            shifted(self.adjacency, row, dr, self.height as int),
            shifted(self.adjacency, col, dc, self.width as int),
        ) {
            (Some(r), Some(c)) => Some((r, c)),
            _ => None,
        }
    }

    /// The step `(dr, dc)` from `(row, col)` reaches a burning cell.
    pub open spec fn burning_via(self, row: int, col: int, dr: int, dc: int) -> bool {
        match self.neighbor_at(row, col, dr, dc) {
            Some((r, c)) => self.cell(r, c) == State::Burning,
            None => false,
        }
    }

    /// `(r2, c2)` is a Moore neighbour of `(row, col)` under this forest's policy.
    pub open spec fn is_neighbor(self, row: int, col: int, r2: int, c2: int) -> bool {
        exists|dr: int, dc: int|
            is_offset(dr, dc) && #[trigger] self.neighbor_at(row, col, dr, dc) == Some((r2, c2))
    }

    /// Some Moore neighbour of `(row, col)` is burning.
    pub open spec fn burning_near(self, row: int, col: int) -> bool {
        exists|r2: int, c2: int|
            #[trigger] self.is_neighbor(row, col, r2, c2) && self.cell(r2, c2) == State::Burning
    }

    /// Lightning strikes a tree when its sample falls below `f`.
    pub open spec fn ignites(self, draw: u32) -> bool {
        draw < self.f
    }

    /// A tree grows on bare ground when its sample falls below `p`.
    pub open spec fn regrows(self, draw: u32) -> bool {
        draw < self.p
    }

    /// The state of `(row, col)` one tick later, given the sample drawn for it.
    pub open spec fn next_cell(self, row: int, col: int, draw: u32) -> State {
        match self.cell(row, col) {
            State::Tree => if self.burning_near(row, col) || self.ignites(draw) {
                State::Burning
            } else {
                State::Tree
            },
            State::Burning => State::Empty,
            State::Empty => if self.regrows(draw) {
                State::Tree
            } else {
                State::Empty
            },
        }
    }

    /// One synchronous tick: every cell moves on from the current grid, using
    /// the sample of the same index.
    pub open spec fn step(self, draws: Seq<u32>) -> ForestModel {
        ForestModel {
            cells: Seq::new(
                self.cells.len(),
                |i: int| self.next_cell(i / self.width as int, i % self.width as int, draws[i]),
            ),
            ..self
        }
    }

    /// Several ticks in a row, one sequence of samples per tick.
    pub open spec fn run(self, rounds: Seq<Seq<u32>>) -> ForestModel
        decreases rounds.len(),
    {
        if rounds.len() == 0 {
            self
        } else {
            self.run(rounds.drop_last()).step(rounds.last())
        }
    }

    /// The text of one row: a character per cell, then a newline.
    pub open spec fn row_text(self, row: int) -> Seq<char> {
        Seq::new(self.width as nat, |c: int| symbol_of(self.cell(row, c))).push('\n')
    }

    /// The text of the first `rows` rows.
    pub open spec fn rows_text(self, rows: nat) -> Seq<char>
        decreases rows,
    {
        if rows == 0 {
            Seq::empty()
        } else {
            self.rows_text((rows - 1) as nat) + self.row_text(rows - 1)
        }
    }

    /// The rendering of the whole grid.
    pub open spec fn text(self) -> Seq<char> {
        self.rows_text(self.height as nat)
    }
}

} // verus!
