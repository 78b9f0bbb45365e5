use crate::model::{Adjacency, ForestModel};
use crate::state::State;
use vstd::arithmetic::div_mod::lemma_fundamental_div_mod_converse;
use vstd::prelude::*;

verus! {

/// A freshly planted forest is well formed: it has exactly `width * height`
/// cells.
pub proof fn lemma_planted_size(width: u32, height: u32, p: u32, f: u32, adjacency: Adjacency)
    requires
        width >= 1,
        height >= 1,
        width * height <= u32::MAX,
    ensures
        ForestModel::planted(width, height, p, f, adjacency).wf(),
        ForestModel::planted(width, height, p, f, adjacency).cells.len() == width * height,
{
}

/// A tick keeps the dimensions, the probabilities and the policy, and leaves
/// exactly `width * height` cells.
pub proof fn lemma_step_keeps_size(m: ForestModel, draws: Seq<u32>)
    requires
        m.wf(),
        draws.len() == m.cells.len(),
    ensures
        m.step(draws).wf(),
        m.step(draws).cells.len() == m.width * m.height,
        m.step(draws).width == m.width,
        m.step(draws).height == m.height,
        m.step(draws).p == m.p,
        m.step(draws).f == m.f,
        m.step(draws).adjacency == m.adjacency,
{
}

/// However many ticks are run, the forest keeps exactly `width * height`
/// cells.
pub proof fn lemma_run_keeps_size(m: ForestModel, rounds: Seq<Seq<u32>>)
    requires
        m.wf(),
        forall|k: int| 0 <= k < rounds.len() ==> (#[trigger] rounds[k]).len() == m.cells.len(),
    ensures
        m.run(rounds).wf(),
        m.run(rounds).cells.len() == m.width * m.height,
        m.run(rounds).width == m.width,
        m.run(rounds).height == m.height,
    decreases rounds.len(),
{
    if rounds.len() > 0 {
        let earlier = rounds.drop_last();
        assert forall|k: int| 0 <= k < earlier.len() implies (#[trigger] earlier[k]).len()
            == m.cells.len() by {
            assert(earlier[k] == rounds[k]);
        }
        lemma_run_keeps_size(m, earlier);
        lemma_step_keeps_size(m.run(earlier), rounds.last());
    }
}

/// A cell that is burning is bare one tick later, whatever its neighbours
/// and its sample.
pub proof fn lemma_burning_decays(m: ForestModel, draws: Seq<u32>, i: int)
    requires
        m.wf(),
        draws.len() == m.cells.len(),
        0 <= i < m.cells.len(),
        m.cells[i] == State::Burning,
    ensures
        m.step(draws).cells[i] == State::Empty,
{
    lemma_cell_of_index(m, i);
}

/// Bare ground holds a tree one tick later only when its sample made a tree
/// grow.
pub proof fn lemma_no_free_regrowth(m: ForestModel, draws: Seq<u32>, i: int)
    requires
        m.wf(),
        draws.len() == m.cells.len(),
        0 <= i < m.cells.len(),
        m.cells[i] == State::Empty,
        m.step(draws).cells[i] == State::Tree,
    ensures
        m.regrows(draws[i]),
{
    lemma_cell_of_index(m, i);
}

/// On a torus the top-left and bottom-right cells are neighbours of each
/// other.
pub proof fn lemma_toroidal_corners_adjacent(m: ForestModel)
    requires
        m.wf(),
        m.adjacency == Adjacency::Toroidal,
    ensures
        m.is_neighbor(0, 0, m.height - 1, m.width - 1),
        m.is_neighbor(m.height - 1, m.width - 1, 0, 0),
{
    let (h, w) = (m.height as int, m.width as int);
    lemma_fundamental_div_mod_converse(-1, h, -1, h - 1);
    lemma_fundamental_div_mod_converse(-1, w, -1, w - 1);
    lemma_fundamental_div_mod_converse(h, h, 1, 0);
    lemma_fundamental_div_mod_converse(w, w, 1, 0);
    assert(m.neighbor_at(0, 0, -1, -1) == Some((h - 1, w - 1)));
    assert(m.neighbor_at(h - 1, w - 1, 1, 1) == Some((0int, 0int)));
}

/// With clipped edges, on a grid at least three cells wide or three cells
/// high, the top-left and bottom-right cells are not neighbours.
pub proof fn lemma_clipped_corners_apart(m: ForestModel)
    requires
        m.wf(),
        m.adjacency == Adjacency::Clipped,
        m.width >= 3 || m.height >= 3,
    ensures
        !m.is_neighbor(0, 0, m.height - 1, m.width - 1),
        !m.is_neighbor(m.height - 1, m.width - 1, 0, 0),
{
}

/// Two runs from the same forest with the same samples for every tick end
/// in the same forest, cell for cell.
pub proof fn lemma_replay(a: ForestModel, b: ForestModel, rounds: Seq<Seq<u32>>)
    requires
        a == b,
    ensures
        a.run(rounds) == b.run(rounds),
        a.run(rounds).cells == b.run(rounds).cells,
{
}

/// The cell at index `i` is the one at row `i / width`, column `i % width`.
proof fn lemma_cell_of_index(m: ForestModel, i: int)
    requires
        m.wf(),
        0 <= i < m.cells.len(),
    ensures
        m.cell(i / m.width as int, i % m.width as int) == m.cells[i],
{
    let w = m.width as int;
    vstd::arithmetic::div_mod::lemma_fundamental_div_mod(i, w);
    assert(w * (i / w) == (i / w) * w) by (nonlinear_arith);
}

} // verus!
