//! Global laws of the engine, stated and proved over the grid model.

use vstd::prelude::*;

use crate::cell::life_rule;
use crate::grid::{lemma_index_in_range, lemma_view_index_coords, Grid, GridView};
use crate::render::lemma_render_rows_len;
use crate::sim::{header, transcript};

verus! {

/// What one generation step does at a board coordinate: exactly Conway's
/// rule applied to that coordinate's state and live-neighbor count.
pub proof fn lemma_step_at(v: GridView, x: int, y: int)
    requires
        v.wf(),
        v.in_bounds(x, y),
    ensures
        v.step().alive_at(x, y) == life_rule(v.alive_at(x, y), v.live_neighbor_count(x, y)),
{
    lemma_index_in_range(v.width, v.height, x, y);
    vstd::arithmetic::div_mod::lemma_fundamental_div_mod_converse(
        x * v.height + y,
        v.height,
        x,
        y,
    );
}

/// An interior cell has exactly 8 neighbor candidates.
pub proof fn lemma_interior_eight_neighbors(g: Grid, x: int, y: int)
    requires
        g.wf(),
        0 < x < g@.width - 1,
        0 < y < g@.height - 1,
    ensures
        g.neighbor_seq(x, y).len() == 8,
{
    crate::grid::lemma_candidate_count(g, x - 1, y - 1);
    crate::grid::lemma_candidate_count(g, x - 1, y);
    crate::grid::lemma_candidate_count(g, x - 1, y + 1);
    crate::grid::lemma_candidate_count(g, x, y - 1);
    crate::grid::lemma_candidate_count(g, x, y + 1);
    crate::grid::lemma_candidate_count(g, x + 1, y - 1);
    crate::grid::lemma_candidate_count(g, x + 1, y);
    crate::grid::lemma_candidate_count(g, x + 1, y + 1);
}

/// A corner cell has exactly 3 neighbor candidates.
pub proof fn lemma_corner_three_neighbors(g: Grid, x: int, y: int)
    requires
        g.wf(),
        g@.width >= 2,
        g@.height >= 2,
        x == 0 || x == g@.width - 1,
        y == 0 || y == g@.height - 1,
    ensures
        g.neighbor_seq(x, y).len() == 3,
{
    crate::grid::lemma_candidate_count(g, x - 1, y - 1);
    crate::grid::lemma_candidate_count(g, x - 1, y);
    crate::grid::lemma_candidate_count(g, x - 1, y + 1);
    crate::grid::lemma_candidate_count(g, x, y - 1);
    crate::grid::lemma_candidate_count(g, x, y + 1);
    crate::grid::lemma_candidate_count(g, x + 1, y - 1);
    crate::grid::lemma_candidate_count(g, x + 1, y);
    crate::grid::lemma_candidate_count(g, x + 1, y + 1);
}

/// A non-corner edge cell has exactly 5 neighbor candidates.
pub proof fn lemma_edge_five_neighbors(g: Grid, x: int, y: int)
    requires
        g.wf(),
        ((x == 0 || x == g@.width - 1) && g@.width >= 2 && 0 < y < g@.height - 1) || ((y == 0
            || y == g@.height - 1) && g@.height >= 2 && 0 < x < g@.width - 1),
    ensures
        g.neighbor_seq(x, y).len() == 5,
{
    crate::grid::lemma_candidate_count(g, x - 1, y - 1);
    crate::grid::lemma_candidate_count(g, x - 1, y);
    crate::grid::lemma_candidate_count(g, x - 1, y + 1);
    crate::grid::lemma_candidate_count(g, x, y - 1);
    crate::grid::lemma_candidate_count(g, x, y + 1);
    crate::grid::lemma_candidate_count(g, x + 1, y - 1);
    crate::grid::lemma_candidate_count(g, x + 1, y);
    crate::grid::lemma_candidate_count(g, x + 1, y + 1);
}

/// Every stored cell carries a coordinate on the board.
pub proof fn lemma_positions_in_bounds(g: Grid, i: int)
    requires
        g.wf(),
        0 <= i < g.cells@.len(),
    ensures
        g@.in_bounds(g.cells@[i].position.0 as int, g.cells@[i].position.1 as int),
{
    lemma_view_index_coords(g@, i);
    let h = g.height as int;
    assert(g.cell_ok(i / h, i % h));
}

/// Coordinates are never duplicated: distinct slots of a well-formed grid
/// hold cells with distinct coordinates.
pub proof fn lemma_coords_unique(g: Grid, i: int, j: int)
    requires
        g.wf(),
        0 <= i < g.cells@.len(),
        0 <= j < g.cells@.len(),
        i != j,
    ensures
        g.cells@[i].position != g.cells@[j].position,
{
    lemma_view_index_coords(g@, i);
    lemma_view_index_coords(g@, j);
    let h = g.height as int;
    assert(g.cell_ok(i / h, i % h));
    assert(g.cell_ok(j / h, j % h));
}

/// An all-dead board is a fixed point: a generation step changes nothing.
pub proof fn lemma_all_dead_fixed_point(v: GridView)
    requires
        v.wf(),
        v.all_dead(),
    ensures
        v.step() == v,
{
    assert forall|i: int| 0 <= i < v.alive.len() implies v.step().alive[i] == v.alive[i] by {
        lemma_view_index_coords(v, i);
        let x = i / v.height;
        let y = i % v.height;
        assert(!v.alive_at(x, y));
        assert(v.live_neighbor_count(x, y) == 0);
    }
    assert(v.step().alive =~= v.alive);
}

/// Underpopulation: from a state whose only alive cell is at `(ax, ay)`,
/// one step leaves every cell dead — the lone cell dies, and no dead cell
/// is born, since no cell sees more than one live neighbor.
pub proof fn lemma_lone_cell_dies(v: GridView, ax: int, ay: int)
    requires
        v.wf(),
        v.in_bounds(ax, ay),
        v.alive_at(ax, ay),
        forall|x: int, y: int|
            v.in_bounds(x, y) && (x != ax || y != ay) ==> !(#[trigger] v.alive_at(x, y)),
    ensures
        v.step().all_dead(),
{
    assert forall|x: int, y: int|
        v.step().in_bounds(x, y) implies !(#[trigger] v.step().alive_at(x, y)) by {
        lemma_step_at(v, x, y);
        assert(v.live_neighbor_count(x, y) <= 1);
        if x == ax && y == ay {
            assert(v.live_neighbor_count(x, y) == 0);
        }
    }
}

/// A fully alive 2x2 board is a still life: every cell has exactly 3 alive
/// neighbors, so a generation step changes nothing.
pub proof fn lemma_block_still_life(v: GridView)
    requires
        v.wf(),
        v.width == 2,
        v.height == 2,
        v.all_alive(),
    ensures
        v.step() == v,
{
    assert forall|i: int| 0 <= i < v.alive.len() implies v.step().alive[i] == v.alive[i] by {
        lemma_view_index_coords(v, i);
        let x = i / v.height;
        let y = i % v.height;
        assert(v.alive_at(x, y));
        assert(v.live_neighbor_count(x, y) == 3);
    }
    assert(v.step().alive =~= v.alive);
}

/// The 2x2 still life is unchanged by any number of generation steps.
pub proof fn lemma_block_still_life_forever(v: GridView, k: nat)
    requires
        v.wf(),
        v.width == 2,
        v.height == 2,
        v.all_alive(),
    ensures
        v.after(k) == v,
    decreases k,
{
    if k > 0 {
        lemma_block_still_life_forever(v, (k - 1) as nat);
        lemma_block_still_life(v);
    }
}

/// With no update passes requested, the transcript is exactly one
/// generation-0 block: the 14-character header, then `height` lines of
/// `width` glyph pairs each.
pub proof fn lemma_transcript_zero(v: GridView, generations: int)
    requires
        generations <= 0,
        0 <= v.width,
        0 <= v.height,
    ensures
        transcript(v, generations) == header(0) + v.render(),
        v.render().len() == v.height * (2 * v.width + 1),
        transcript(v, generations).len() == 14 + v.height * (2 * v.width + 1),
{
    lemma_render_rows_len(v, v.height);
    reveal_strlit("Generation ");
    reveal_strlit(":\n");
}

} // verus!
