use crate::laws::lemma_burning_decays;
use crate::model::{is_offset, shifted, Adjacency, ForestModel, PROBABILITY_SCALE};
use crate::random::{entropy_rng, sample_below, seeded_rng};
use crate::state::{symbol, symbol_of, State};
use rand::rngs::StdRng;
use vstd::arithmetic::div_mod::lemma_fundamental_div_mod_converse;
use vstd::prelude::*;
use vstd::string::StringExecFns;

verus! {

/// A forest-fire automaton: a grid of cells, the probabilities of regrowth
/// (`p`) and of lightning (`f`), an adjacency policy and the generator that
/// supplies the samples of each tick.
pub struct Forest {
    width: u32,
    height: u32,
    p: u32,
    f: u32,
    adjacency: Adjacency,
    patches: Vec<State>,
    rng: StdRng,
}

impl View for Forest {
    type V = ForestModel;

    closed spec fn view(&self) -> ForestModel {
        ForestModel {
            width: self.width,
            height: self.height,
            p: self.p,
            f: self.f,
            adjacency: self.adjacency,
            cells: self.patches@,
        }
    }
}

/// A vector of `n` trees.
fn all_trees(n: u32) -> (r: Vec<State>)
    ensures
        r@ == Seq::new(n as nat, |i: int| State::Tree),
{
    let mut v: Vec<State> = Vec::new();
    let mut i: u32 = 0;
    while i < n
        invariant
            i <= n,
            v@ == Seq::new(i as nat, |j: int| State::Tree),
        decreases n - i,
    {
        v.push(State::Tree);
        i = i + 1;
        assert(v@ =~= Seq::new(i as nat, |j: int| State::Tree));
    }
    v
}

impl Forest {
    pub open spec fn wf(&self) -> bool {
        self@.wf()
    }

    /// A clipped-edge forest of trees whose generator is seeded by the
    /// operating system.
    pub fn new(width: u32, height: u32, p: u32, f: u32) -> (r: Forest)
        requires
            width >= 1,
            height >= 1,
            width * height <= u32::MAX,
        ensures
            r.wf(),
            r@ == ForestModel::planted(width, height, p, f, Adjacency::Clipped),
            r@.cells.len() == width * height,
            forall|i: int| 0 <= i < r@.cells.len() ==> r@.cells[i] == State::Tree,
    {
        Forest::with_policy(width, height, p, f, Adjacency::Clipped, None)
    }

    /// A forest of trees under the given adjacency policy. With `Some(seed)`
    /// the samples of every tick are fixed by the seed; with `None` the
    /// generator is seeded by the operating system.
    pub fn with_policy(width: u32, height: u32, p: u32, f: u32, adjacency: Adjacency, seed: Option<u64>) -> (r: Forest)
        requires
            width >= 1,
            height >= 1,
            width * height <= u32::MAX,
        ensures
            r.wf(),
            r@ == ForestModel::planted(width, height, p, f, adjacency),
            r@.cells.len() == width * height,
            forall|i: int| 0 <= i < r@.cells.len() ==> r@.cells[i] == State::Tree,
    {
        let rng = match seed {
            Some(s) => seeded_rng(s),
            None => entropy_rng(),
        };
        let patches = all_trees(width * height);
        Forest { width, height, p, f, adjacency, patches, rng }
    }

    fn get_index(&self, row: u32, column: u32) -> (r: usize)
        requires
            self.wf(),
            self@.in_grid(row as int, column as int),
        ensures
            r == row * self@.width + column,
            r < self@.cells.len(),
    {
        proof {
            lemma_index_in_grid(self.width as int, self.height as int, row as int, column as int);
        }
        (row * self.width + column) as usize
    }

    /// The state of the cell at `(row, column)`.
    pub fn get_patch(&self, row: u32, column: u32) -> (r: State)
        requires
            self.wf(),
            self@.in_grid(row as int, column as int),
        ensures
            r == self@.cell(row as int, column as int),
    {
        self.patches[self.get_index(row, column)]
    }

    /// Puts `state` at `(row, column)` and leaves every other cell as it was.
    pub fn set_patch(&mut self, row: u32, column: u32, state: State)
        requires
            old(self).wf(),
            old(self)@.in_grid(row as int, column as int),
        ensures
            final(self).wf(),
            final(self)@ == (ForestModel {
                cells: old(self)@.cells.update(row * old(self)@.width + column, state),
                ..old(self)@
            }),
    {
        let idx = self.get_index(row, column);
        self.patches.set(idx, state);
    }

    /// The step `(dr, dc)` from `(row, column)` reaches a burning cell.
    fn burning_at(&self, row: u32, column: u32, dr: i8, dc: i8) -> (r: bool)
        requires
            self.wf(),
            self@.in_grid(row as int, column as int),
            -1 <= dr <= 1,
            -1 <= dc <= 1,
        ensures
            r == self@.burning_via(row as int, column as int, dr as int, dc as int),
    {
        match (shift(self.adjacency, row, dr, self.height), shift(self.adjacency, column, dc, self.width)) {
            (Some(r), Some(c)) => self.get_patch(r, c) == State::Burning,
            _ => false,
        }
    }

    /// Whether any Moore neighbour of `(row, column)` is burning. The search
    /// stops at the first burning neighbour it meets.
    pub fn has_burning_neighbor(&self, row: u32, column: u32) -> (r: bool)
        requires
            self.wf(),
            self@.in_grid(row as int, column as int),
        ensures
            r == self@.burning_near(row as int, column as int),
    {
        let m = Ghost(self@);
        let (ri, ci) = (Ghost(row as int), Ghost(column as int));
        proof {
            if m@.burning_near(ri@, ci@) {
                let (r2, c2) = choose|r2: int, c2: int|
                    #[trigger] m@.is_neighbor(ri@, ci@, r2, c2) && m@.cell(r2, c2) == State::Burning;
                let (dr, dc) = choose|dr: int, dc: int|
                    is_offset(dr, dc) && #[trigger] m@.neighbor_at(ri@, ci@, dr, dc) == Some((r2, c2));
                assert(m@.burning_via(ri@, ci@, dr, dc));
            }
        }
        let r = self.burning_at(row, column, -1, -1) || self.burning_at(row, column, -1, 0)
            || self.burning_at(row, column, -1, 1) || self.burning_at(row, column, 0, -1)
            || self.burning_at(row, column, 0, 1) || self.burning_at(row, column, 1, -1)
            || self.burning_at(row, column, 1, 0) || self.burning_at(row, column, 1, 1);
        proof {
            if r {
                let (dr, dc) = choose|dr: int, dc: int| is_offset(dr, dc) && #[trigger] m@.burning_via(ri@, ci@, dr, dc);
                let (r2, c2) = m@.neighbor_at(ri@, ci@, dr, dc).unwrap();
                assert(m@.is_neighbor(ri@, ci@, r2, c2));
            }
        }
        r
    }

    /// Whether lightning strikes a tree whose sample is `draw`.
    fn lightning(&self, draw: u32) -> (r: bool)
        ensures
            r == self@.ignites(draw),
    {
        draw < self.f
    }

    /// Whether a tree grows on bare ground whose sample is `draw`.
    fn regenerate(&self, draw: u32) -> (r: bool)
        ensures
            r == self@.regrows(draw),
    {
        draw < self.p
    }

    /// The state of `(row, column)` after this tick, given its sample.
    fn next_state(&self, row: u32, column: u32, draw: u32) -> (r: State)
        requires
            self.wf(),
            self@.in_grid(row as int, column as int),
        ensures
            r == self@.next_cell(row as int, column as int, draw),
    {
        match self.get_patch(row, column) {
            State::Tree => if self.has_burning_neighbor(row, column) || self.lightning(draw) {
                State::Burning
            } else {
                State::Tree
            },
            State::Burning => State::Empty,
            State::Empty => if self.regenerate(draw) {
                State::Tree
            } else {
                State::Empty
            },
        }
    }

    /// Advances the forest by one synchronous tick, using `draws[i]` as the
    /// sample of cell `i`. Every cell moves on from the grid as it stood
    /// before the tick; the new grid replaces it at the end.
    pub fn tick_with(&mut self, draws: &Vec<u32>)
        requires
            old(self).wf(),
            draws@.len() == old(self)@.cells.len(),
        ensures
            final(self).wf(),
            final(self)@ == old(self)@.step(draws@),
    {
        let n = self.patches.len();
        let width = self.width;
        let mut next: Vec<State> = Vec::with_capacity(n);
        let mut idx: usize = 0;
        let mut row: u32 = 0;
        let mut col: u32 = 0;
        while idx < n
            invariant
                self.wf(),
                self@ == old(self)@,
                n == self@.cells.len(),
                width == self@.width,
                draws@.len() == n,
                idx <= n,
                col < width,
                idx == row * width + col,
                next@.len() == idx,
                forall|j: int|
                    0 <= j < idx ==> next@[j] == self@.next_cell(
                        j / width as int,
                        j % width as int,
                        draws@[j],
                    ),
            decreases n - idx,
        {
            proof {
                lemma_row_in_grid(width as int, self.height as int, row as int, col as int);
                lemma_fundamental_div_mod_converse(idx as int, width as int, row as int, col as int);
            }
            let state = self.next_state(row, col, draws[idx]);
            next.push(state);
            idx = idx + 1;
            if col + 1 == width {
                assert((row + 1) * width == row * width + width) by (nonlinear_arith);
                col = 0;
                row = row + 1;
            } else {
                col = col + 1;
            }
        }
        self.patches = next;
        assert(self@.cells =~= old(self)@.step(draws@).cells);
    }

    /// One sample below `PROBABILITY_SCALE` per cell, from the forest's
    /// generator.
    fn draw_samples(&mut self) -> (r: Vec<u32>)
        requires
            old(self).wf(),
        ensures
            final(self)@ == old(self)@,
            r@.len() == old(self)@.cells.len(),
            forall|i: int| 0 <= i < r@.len() ==> r@[i] < PROBABILITY_SCALE,
    {
        let n = self.patches.len();
        let mut draws: Vec<u32> = Vec::with_capacity(n);
        while draws.len() < n
            invariant
                self@ == old(self)@,
                n == self@.cells.len(),
                draws@.len() <= n,
                forall|i: int| 0 <= i < draws@.len() ==> draws@[i] < PROBABILITY_SCALE,
            decreases n - draws@.len(),
        {
            let s = sample_below(&mut self.rng, PROBABILITY_SCALE);
            draws.push(s);
        }
        draws
    }

    /// Advances the forest by one synchronous tick, drawing one sample per
    /// cell from the forest's generator.
    pub fn tick(&mut self)
        requires
            old(self).wf(),
        ensures
            final(self).wf(),
            exists|d: Seq<u32>|
                d.len() == old(self)@.cells.len()
                && (forall|i: int| 0 <= i < d.len() ==> d[i] < PROBABILITY_SCALE)
                && final(self)@ == old(self)@.step(d),
            final(self)@.cells.len() == old(self)@.width * old(self)@.height,
            forall|i: int|
                0 <= i < old(self)@.cells.len() && old(self)@.cells[i] == State::Burning
                    ==> final(self)@.cells[i] == State::Empty,
    {
        let draws = self.draw_samples();
        self.tick_with(&draws);
        proof {
            assert forall|i: int|
                0 <= i < old(self)@.cells.len() && old(self)@.cells[i] == State::Burning
                    implies final(self)@.cells[i] == State::Empty by {
                lemma_burning_decays(old(self)@, draws@, i);
            }
        }
    }

    /// The grid as text: one line per row, top row first, each cell written
    /// as `T`, `B` or `E` from left to right and each line ended by a newline.
    pub fn render(&self) -> (r: String)
        requires
            self.wf(),
        ensures
            r@ == self@.text(),
    {
        let mut out = String::new();
        let mut row: u32 = 0;
        while row < self.height
            invariant
                self.wf(),
                row <= self@.height,
                out@ == self@.rows_text(row as nat),
            decreases self@.height - row,
        {
            let ghost before = out@;
            let mut col: u32 = 0;
            while col < self.width
                invariant
                    self.wf(),
                    row < self@.height,
                    col <= self@.width,
                    out@ == before + Seq::new(col as nat, |c: int| symbol_of(self@.cell(row as int, c))),
                decreases self@.width - col,
            {
                out.append(symbol(self.get_patch(row, col)));
                col = col + 1;
                assert(out@ =~= before + Seq::new(col as nat, |c: int| symbol_of(self@.cell(row as int, c))));
            }
            proof {
                reveal_strlit("\n");
            }
            out.append("\n");
            row = row + 1;
            assert(out@ =~= self@.rows_text(row as nat));
        }
        out
    }

    /// The cells in row-major order: the cell at `(row, column)` has index
    /// `row * width + column`.
    pub fn patches(&self) -> (r: &[State])
        ensures
            r@ == self@.cells,
    {
        self.patches.as_slice()
    }

    /// The policy that decides which cells are neighbours.
    pub fn adjacency(&self) -> (r: Adjacency)
        ensures
            r == self@.adjacency,
    {
        self.adjacency
    }

    pub fn width(&self) -> (r: u32)
        ensures
            r == self@.width,
    {
        self.width
    }

    pub fn height(&self) -> (r: u32)
        ensures
            r == self@.height,
    {
        self.height
    }
}

/// Moves the coordinate `x` by `d` along an axis of `n` cells under the
/// given policy.
fn shift(adjacency: Adjacency, x: u32, d: i8, n: u32) -> (r: Option<u32>)
    requires
        x < n,
        -1 <= d <= 1,
    ensures
        match r {
            Some(y) => y < n && shifted(adjacency, x as int, d as int, n as int) == Some(y as int),
            None => shifted(adjacency, x as int, d as int, n as int) is None,
        },
{
    if d < 0 {
        if x > 0 {
            Some(x - 1)
        } else {
            match adjacency {
                Adjacency::Clipped => None,
                Adjacency::Toroidal => {
                    proof {
                        lemma_fundamental_div_mod_converse(-1, n as int, -1, n - 1);
                    }
                    Some(n - 1)
                },
            }
        }
    } else if d == 0 {
        Some(x)
    } else if x < n - 1 {
        Some(x + 1)
    } else {
        match adjacency {
            Adjacency::Clipped => None,
            Adjacency::Toroidal => {
                proof {
                    lemma_fundamental_div_mod_converse(n as int, n as int, 1, 0);
                }
                Some(0)
            },
        }
    }
}

/// A position below the number of cells lies in a row of the grid.
proof fn lemma_row_in_grid(width: int, height: int, row: int, col: int)
    requires
        0 <= row,
        0 <= col < width,
        row * width + col < width * height,
    ensures
        row < height,
{
    assert(row < height) by (nonlinear_arith)
        requires
            0 <= row,
            0 <= col < width,
            row * width + col < width * height,
    ;
}

/// A cell of the grid has an index below the number of cells.
proof fn lemma_index_in_grid(width: int, height: int, row: int, col: int)
    requires
        0 <= row < height,
        0 <= col < width,
    ensures
        0 <= row * width + col < width * height,
{
    assert(row * width + col < width * height) by (nonlinear_arith)
        requires
            0 <= row < height,
            0 <= col < width,
    ;
    assert(0 <= row * width) by (nonlinear_arith)
        requires
            0 <= row,
            0 <= col < width,
    ;
}

} // verus!
