//! The grid: cell storage, neighbor resolution, and the generation update.

use vstd::prelude::*;

use crate::cell::{life_rule, Cell};

verus! {

/// How many cells a `width x height` board holds: zero when either dimension
/// is not positive, their product otherwise.
pub open spec fn dim_count(width: int, height: int) -> int {
    if width <= 0 || height <= 0 {
        0
    } else {
        width * height
    }
}

/// The mathematical state of a grid: which cell of the board is alive, with
/// the cell for coordinate `(x, y)` stored at index `x * height + y`.
pub struct GridView {
    pub alive: Seq<bool>,
    pub width: int,
    pub height: int,
}

impl GridView {
    pub open spec fn wf(self) -> bool {
        self.alive.len() == dim_count(self.width, self.height)
    }

    pub open spec fn in_bounds(self, x: int, y: int) -> bool {
        0 <= x < self.width && 0 <= y < self.height
    }

    /// Whether the cell at `(x, y)` is alive; coordinates off the board are
    /// never alive (there is no wraparound).
    pub open spec fn alive_at(self, x: int, y: int) -> bool {
        self.in_bounds(x, y) && self.alive[x * self.height + y]
    }

    pub open spec fn live_indicator(self, x: int, y: int) -> int {
        if self.alive_at(x, y) {
            1
        } else {
            0
        }
    }

    /// How many of the eight Moore-neighborhood coordinates of `(x, y)` hold
    /// an alive cell. Off-board coordinates contribute nothing, so edge and
    /// corner cells see fewer candidates.
    pub open spec fn live_neighbor_count(self, x: int, y: int) -> int {
        self.live_indicator(x - 1, y - 1) + self.live_indicator(x - 1, y) + self.live_indicator(
            x - 1,
            y + 1,
        ) + self.live_indicator(x, y - 1) + self.live_indicator(x, y + 1) + self.live_indicator(
            x + 1,
            y - 1,
        ) + self.live_indicator(x + 1, y) + self.live_indicator(x + 1, y + 1)
    }

    /// One simultaneous generation step: every cell's next state is Conway's
    /// rule applied to its current state and its live-neighbor count, all
    /// counts taken from the same previous-generation state.
    pub open spec fn step(self) -> GridView {
        GridView {
            alive: Seq::new(
                self.alive.len(),
                |i: int|
                    life_rule(
                        self.alive[i],
                        self.live_neighbor_count(i / self.height, i % self.height),
                    ),
            ),
            ..self
        }
    }

    /// The state after `k` generation steps.
    pub open spec fn after(self, k: nat) -> GridView
        decreases k,
    {
        if k == 0 {
            self
        } else {
            self.after((k - 1) as nat).step()
        }
    }

    pub open spec fn all_dead(self) -> bool {
        forall|x: int, y: int| self.in_bounds(x, y) ==> !(#[trigger] self.alive_at(x, y))
    }

    pub open spec fn all_alive(self) -> bool {
        forall|x: int, y: int| self.in_bounds(x, y) ==> #[trigger] self.alive_at(x, y)
    }
}

/// The slot of `cells` for coordinate `(x, y)` holds a cell carrying exactly
/// that coordinate, with its identifier equal to its storage index.
pub open spec fn slot_ok(cells: Seq<Cell>, height: int, x: int, y: int) -> bool {
    &&& cells[x * height + y].position.0 == x
    &&& cells[x * height + y].position.1 == y
    &&& cells[x * height + y].id == x * height + y
}

/// The complete board for one simulation: exactly one cell per coordinate of
/// `[0, width) x [0, height)`, stored in column-major order (`x` outer, `y`
/// inner), identifiers increasing in storage order.
pub struct Grid {
    pub cells: Vec<Cell>,
    pub width: i32,
    pub height: i32,
}

impl View for Grid {
    type V = GridView;

    open spec fn view(&self) -> GridView {
        GridView {
            alive: self.cells@.map_values(|c: Cell| c.state),
            width: self.width as int,
            height: self.height as int,
        }
    }
}

impl Grid {
    /// The cell stored for coordinate `(x, y)`.
    pub open spec fn cell_at(self, x: int, y: int) -> Cell {
        self.cells@[x * self.height + y]
    }

    pub open spec fn cell_ok(self, x: int, y: int) -> bool {
        slot_ok(self.cells@, self.height as int, x, y)
    }

    /// Well-formedness: one cell per board coordinate, each at its index with
    /// its own coordinate and identifier. The cell count is bounded so that
    /// identifiers fit their type.
    pub open spec fn wf(self) -> bool {
        &&& dim_count(self.width as int, self.height as int) <= i32::MAX as int
        &&& self.cells@.len() == dim_count(self.width as int, self.height as int)
        &&& forall|x: int, y: int| self@.in_bounds(x, y) ==> #[trigger] self.cell_ok(x, y)
    }
}

/// A board coordinate's storage index is within the cell count.
pub proof fn lemma_index_in_range(width: int, height: int, x: int, y: int)
    requires
        0 <= x < width,
        0 <= y < height,
    ensures
        0 <= x * height + y < width * height,
        x * height + y < dim_count(width, height),
        0 <= x * height,
{
    assert(0 <= x * height && x * height + y < width * height) by (nonlinear_arith)
        requires
            0 <= x < width,
            0 <= y < height,
    ;
}

/// Storage order: a lexicographically earlier coordinate has a strictly
/// smaller storage index.
pub proof fn lemma_index_lt(height: int, x1: int, y1: int, x2: int, y2: int)
    requires
        0 <= x1,
        0 <= y1 < height,
        0 <= y2,
        x1 < x2 || (x1 == x2 && y1 < y2),
    ensures
        x1 * height + y1 < x2 * height + y2,
{
    assert(x1 * height + y1 < x2 * height + y2) by (nonlinear_arith)
        requires
            0 <= x1,
            0 <= y1 < height,
            0 <= y2,
            x1 < x2 || (x1 == x2 && y1 < y2),
    ;
}

/// Every storage index of a well-formed state is the index of exactly one
/// board coordinate, recovered by division and remainder.
pub proof fn lemma_view_index_coords(v: GridView, i: int)
    requires
        v.wf(),
        0 <= i < v.alive.len(),
    ensures
        ({
            let x = i / v.height;
            let y = i % v.height;
            v.in_bounds(x, y) && i == x * v.height + y
        }),
{
    assert(v.width > 0 && v.height > 0);
    let x = i / v.height;
    let y = i % v.height;
    vstd::arithmetic::div_mod::lemma_fundamental_div_mod(i, v.height);
    vstd::arithmetic::div_mod::lemma_mod_pos_bound(i, v.height);
    assert(i == v.height * x + y);
    assert(0 <= y < v.height);
    assert(0 <= x && x < v.width) by (nonlinear_arith)
        requires
            i == v.height * x + y,
            0 <= y < v.height,
            0 <= i < v.width * v.height,
    ;
    assert(x * v.height + y == v.height * x + y);
}

impl Grid {
    /// Builds the all-dead board: one dead cell per coordinate, created with
    /// `x` as the outer loop and `y` as the inner loop, identifiers starting
    /// at 0 and incremented once per cell.
    pub fn new(width: i32, height: i32) -> (g: Grid)
        requires
            dim_count(width as int, height as int) <= i32::MAX as int,
        ensures
            g.wf(),
            g.width == width,
            g.height == height,
            forall|i: int| 0 <= i < g.cells@.len() ==> !(#[trigger] g.cells@[i]).state,
    {
        let mut cells: Vec<Cell> = Vec::new();
        let mut id: i32 = 0;
        let mut x: i32 = 0;
        while x < width
            invariant
                dim_count(width as int, height as int) <= i32::MAX as int,
                0 <= x,
                width > 0 ==> x <= width,
                width <= 0 ==> x == 0,
                cells@.len() == dim_count(x as int, height as int),
                id == cells@.len(),
                forall|xi: int, yi: int|
                    0 <= xi < x && 0 <= yi < height ==> #[trigger] slot_ok(
                        cells@,
                        height as int,
                        xi,
                        yi,
                    ),
                forall|i: int| 0 <= i < cells@.len() ==> !(#[trigger] cells@[i]).state,
            decreases width - x,
        {
            let mut y: i32 = 0;
            while y < height
                invariant
                    dim_count(width as int, height as int) <= i32::MAX as int,
                    0 <= x < width,
                    0 <= y,
                    height > 0 ==> y <= height,
                    height <= 0 ==> y == 0,
                    cells@.len() == dim_count(x as int, height as int) + y,
                    id == cells@.len(),
                    forall|xi: int, yi: int|
                        0 <= xi < x && 0 <= yi < height ==> #[trigger] slot_ok(
                            cells@,
                            height as int,
                            xi,
                            yi,
                        ),
                    forall|yi: int|
                        0 <= yi < y ==> #[trigger] slot_ok(cells@, height as int, x as int, yi),
                    forall|i: int| 0 <= i < cells@.len() ==> !(#[trigger] cells@[i]).state,
                decreases height - y,
            {
                let ghost cs0 = cells@;
                let ghost h = height as int;
                let ghost xx = x as int;
                let ghost yy = y as int;
                proof {
                    lemma_index_in_range(xx + 1, h, xx, yy);
                    assert(dim_count(xx, h) == xx * h) by (nonlinear_arith)
                        requires
                            0 <= xx,
                            0 <= yy < h,
                    ;
                    assert(xx * h + yy < dim_count(width as int, h)) by (nonlinear_arith)
                        requires
                            0 <= xx < width as int,
                            0 <= yy < h,
                    ;
                }
                cells.push(Cell::new(id, false, (x, y)));
                id = id + 1;
                y = y + 1;
                proof {
                    assert(cs0.len() == xx * h + yy);
                    assert(slot_ok(cells@, h, xx, yy));
                    assert forall|xi: int, yi: int|
                        0 <= xi < xx && 0 <= yi < h implies #[trigger] slot_ok(
                        cells@,
                        h,
                        xi,
                        yi,
                    ) by {
                        assert(slot_ok(cs0, h, xi, yi));
                        lemma_index_in_range(xx, h, xi, yi);
                        lemma_index_lt(h, xi, yi, xx, yy);
                    }
                    assert forall|yi: int| 0 <= yi < yy implies #[trigger] slot_ok(
                        cells@,
                        h,
                        xx,
                        yi,
                    ) by {
                        assert(slot_ok(cs0, h, xx, yi));
                        lemma_index_in_range(xx + 1, h, xx, yi);
                        lemma_index_lt(h, xx, yi, xx, yy);
                    }
                }
            }
            x = x + 1;
            proof {
                assert(cells@.len() == dim_count(x as int, height as int)) by (nonlinear_arith)
                    requires
                        cells@.len() == dim_count(x as int - 1, height as int) + (if height > 0 {
                            height as int
                        } else {
                            0
                        }),
                        0 < x,
                ;
            }
        }
        let g = Grid { cells, width, height };
        proof {
            assert forall|xc: int, yc: int| g@.in_bounds(xc, yc) implies #[trigger] g.cell_ok(
                xc,
                yc,
            ) by {
                assert(slot_ok(g.cells@, g.height as int, xc, yc));
            }
        }
        g
    }
}

impl Grid {
    /// The candidate neighbor at `(x, y)`: the one cell stored there if the
    /// coordinate is on the board, nothing otherwise.
    pub open spec fn candidate_at(self, x: int, y: int) -> Seq<Cell> {
        if self@.in_bounds(x, y) {
            seq![self.cell_at(x, y)]
        } else {
            Seq::empty()
        }
    }

    /// The neighbors of `(x, y)`: the cells at the eight Moore offsets, in a
    /// fixed scan order, off-board candidates absent.
    pub open spec fn neighbor_seq(self, x: int, y: int) -> Seq<Cell> {
        self.candidate_at(x - 1, y - 1) + self.candidate_at(x - 1, y) + self.candidate_at(
            x - 1,
            y + 1,
        ) + self.candidate_at(x, y - 1) + self.candidate_at(x, y + 1) + self.candidate_at(
            x + 1,
            y - 1,
        ) + self.candidate_at(x + 1, y) + self.candidate_at(x + 1, y + 1)
    }
}

/// How many cells of `s` are alive.
pub open spec fn count_alive(s: Seq<Cell>) -> int
    decreases s.len(),
{
    if s.len() <= 0 {
        0
    } else {
        count_alive(s.drop_last()) + (if s.last().state {
            1int
        } else {
            0int
        })
    }
}

pub proof fn lemma_count_alive_append(a: Seq<Cell>, b: Seq<Cell>)
    ensures
        count_alive(a + b) == count_alive(a) + count_alive(b),
    decreases b.len(),
{
    if b.len() == 0 {
        assert(a + b =~= a);
    } else {
        lemma_count_alive_append(a, b.drop_last());
        assert((a + b).drop_last() =~= a + b.drop_last());
        assert((a + b).last() == b.last());
    }
}

/// An alive candidate counts one; a dead or off-board candidate counts none.
pub proof fn lemma_candidate_count(g: Grid, x: int, y: int)
    requires
        g.wf(),
    ensures
        count_alive(g.candidate_at(x, y)) == g@.live_indicator(x, y),
        g.candidate_at(x, y).len() == (if g@.in_bounds(x, y) {
            1int
        } else {
            0int
        }),
{
    if g@.in_bounds(x, y) {
        lemma_index_in_range(g.width as int, g.height as int, x, y);
        let s = seq![g.cell_at(x, y)];
        assert(s.drop_last() =~= Seq::<Cell>::empty());
        assert(count_alive(Seq::<Cell>::empty()) == 0);
        assert(s.last() == g.cell_at(x, y));
        assert(g@.alive[x * g@.height + y] == g.cell_at(x, y).state);
    }
}

/// The alive cells among the neighbors of `(x, y)` are exactly its
/// live-neighbor count.
pub proof fn lemma_neighbor_seq_count(g: Grid, x: int, y: int)
    requires
        g.wf(),
    ensures
        count_alive(g.neighbor_seq(x, y)) == g@.live_neighbor_count(x, y),
        g.neighbor_seq(x, y).len() <= 8,
{
    let s1 = g.candidate_at(x - 1, y - 1);
    let s2 = g.candidate_at(x - 1, y);
    let s3 = g.candidate_at(x - 1, y + 1);
    let s4 = g.candidate_at(x, y - 1);
    let s5 = g.candidate_at(x, y + 1);
    let s6 = g.candidate_at(x + 1, y - 1);
    let s7 = g.candidate_at(x + 1, y);
    let s8 = g.candidate_at(x + 1, y + 1);
    lemma_candidate_count(g, x - 1, y - 1);
    lemma_candidate_count(g, x - 1, y);
    lemma_candidate_count(g, x - 1, y + 1);
    lemma_candidate_count(g, x, y - 1);
    lemma_candidate_count(g, x, y + 1);
    lemma_candidate_count(g, x + 1, y - 1);
    lemma_candidate_count(g, x + 1, y);
    lemma_candidate_count(g, x + 1, y + 1);
    lemma_count_alive_append(s1, s2);
    lemma_count_alive_append(s1 + s2, s3);
    lemma_count_alive_append(s1 + s2 + s3, s4);
    lemma_count_alive_append(s1 + s2 + s3 + s4, s5);
    lemma_count_alive_append(s1 + s2 + s3 + s4 + s5, s6);
    lemma_count_alive_append(s1 + s2 + s3 + s4 + s5 + s6, s7);
    lemma_count_alive_append(s1 + s2 + s3 + s4 + s5 + s6 + s7, s8);
}

impl Grid {
    /// Appends the cell at `(x, y)` to `out` when that coordinate is on the
    /// board; a coordinate beyond any edge contributes nothing.
    fn push_candidate(&self, out: &mut Vec<Cell>, x: i32, y: i32)
        requires
            self.wf(),
        ensures
            final(out)@ == old(out)@ + self.candidate_at(x as int, y as int),
    {
        if x >= 0 && x < self.width && y >= 0 && y < self.height {
            proof {
                lemma_index_in_range(self.width as int, self.height as int, x as int, y as int);
            }
            let idx = (x as usize) * (self.height as usize) + (y as usize);
            out.push(self.cells[idx]);
            proof {
                assert(final(out)@ =~= old(out)@ + self.candidate_at(x as int, y as int));
            }
        } else {
            proof {
                assert(final(out)@ =~= old(out)@ + self.candidate_at(x as int, y as int));
            }
        }
    }

    /// The Moore neighbors of a cell on this grid, scanned in a fixed order
    /// over the eight offsets; edge and corner cells get fewer than eight.
    pub fn get_neighbors(&self, cell: &Cell) -> (neighbors: Vec<Cell>)
        requires
            self.wf(),
            self@.in_bounds(cell.position.0 as int, cell.position.1 as int),
        ensures
            neighbors@ == self.neighbor_seq(cell.position.0 as int, cell.position.1 as int),
    {
        let x = cell.position.0;
        let y = cell.position.1;
        let mut neighbors: Vec<Cell> = Vec::new();
        self.push_candidate(&mut neighbors, x - 1, y - 1);
        self.push_candidate(&mut neighbors, x - 1, y);
        self.push_candidate(&mut neighbors, x - 1, y + 1);
        self.push_candidate(&mut neighbors, x, y - 1);
        self.push_candidate(&mut neighbors, x, y + 1);
        self.push_candidate(&mut neighbors, x + 1, y - 1);
        self.push_candidate(&mut neighbors, x + 1, y);
        self.push_candidate(&mut neighbors, x + 1, y + 1);
        proof {
            assert(neighbors@ =~= self.neighbor_seq(x as int, y as int));
        }
        neighbors
    }

    /// Counts the alive cells among a cell's neighbors, read from this
    /// grid's current (previous-generation) state.
    pub fn count_live_neighbors(&self, cell: &Cell) -> (count: i32)
        requires
            self.wf(),
            self@.in_bounds(cell.position.0 as int, cell.position.1 as int),
        ensures
            count == self@.live_neighbor_count(cell.position.0 as int, cell.position.1 as int),
    {
        let neighbors = self.get_neighbors(cell);
        proof {
            lemma_neighbor_seq_count(*self, cell.position.0 as int, cell.position.1 as int);
        }
        let mut count: i32 = 0;
        let mut i: usize = 0;
        while i < neighbors.len()
            invariant
                i <= neighbors@.len(),
                neighbors@.len() <= 8,
                count == count_alive(neighbors@.take(i as int)),
                0 <= count <= i,
            decreases neighbors@.len() - i,
        {
            if neighbors[i].is_alive() {
                count = count + 1;
            }
            i = i + 1;
            proof {
                assert(neighbors@.take(i as int).drop_last() =~= neighbors@.take(i as int - 1));
                assert(neighbors@.take(i as int).last() == neighbors@[i as int - 1]);
            }
        }
        proof {
            assert(neighbors@.take(neighbors@.len() as int) =~= neighbors@);
        }
        count
    }
}

impl Grid {
    /// Builds a randomly seeded board: the same traversal and identifier
    /// assignment as `new`, but each cell's initial state comes from an
    /// independent uniform draw, alive when the draw falls below
    /// `alive_threshold` — i.e. with probability `alive_threshold / 2^32`.
    /// Which cells come out alive is left open: every outcome is a
    /// well-formed board of the requested dimensions.
    pub fn new_random(width: i32, height: i32, alive_threshold: u32) -> (g: Grid)
        requires
            dim_count(width as int, height as int) <= i32::MAX as int,
        ensures
            g.wf(),
            g.width == width,
            g.height == height,
    {
        let mut cells: Vec<Cell> = Vec::new();
        let mut id: i32 = 0;
        let mut x: i32 = 0;
        while x < width
            invariant
                dim_count(width as int, height as int) <= i32::MAX as int,
                0 <= x,
                width > 0 ==> x <= width,
                width <= 0 ==> x == 0,
                cells@.len() == dim_count(x as int, height as int),
                id == cells@.len(),
                forall|xi: int, yi: int|
                    0 <= xi < x && 0 <= yi < height ==> #[trigger] slot_ok(
                        cells@,
                        height as int,
                        xi,
                        yi,
                    ),
            decreases width - x,
        {
            let mut y: i32 = 0;
            while y < height
                invariant
                    dim_count(width as int, height as int) <= i32::MAX as int,
                    0 <= x < width,
                    0 <= y,
                    height > 0 ==> y <= height,
                    height <= 0 ==> y == 0,
                    cells@.len() == dim_count(x as int, height as int) + y,
                    id == cells@.len(),
                    forall|xi: int, yi: int|
                        0 <= xi < x && 0 <= yi < height ==> #[trigger] slot_ok(
                            cells@,
                            height as int,
                            xi,
                            yi,
                        ),
                    forall|yi: int|
                        0 <= yi < y ==> #[trigger] slot_ok(cells@, height as int, x as int, yi),
                decreases height - y,
            {
                let ghost cs0 = cells@;
                let ghost h = height as int;
                let ghost xx = x as int;
                let ghost yy = y as int;
                proof {
                    lemma_index_in_range(xx + 1, h, xx, yy);
                    assert(dim_count(xx, h) == xx * h) by (nonlinear_arith)
                        requires
                            0 <= xx,
                            0 <= yy < h,
                    ;
                    assert(xx * h + yy < dim_count(width as int, h)) by (nonlinear_arith)
                        requires
                            0 <= xx < width as int,
                            0 <= yy < h,
                    ;
                }
                let roll: u32 = rand::random();
                let state = roll < alive_threshold;
                cells.push(Cell::new(id, state, (x, y)));
                id = id + 1;
                y = y + 1;
                proof {
                    assert(cs0.len() == xx * h + yy);
                    assert(slot_ok(cells@, h, xx, yy));
                    assert forall|xi: int, yi: int|
                        0 <= xi < xx && 0 <= yi < h implies #[trigger] slot_ok(
                        cells@,
                        h,
                        xi,
                        yi,
                    ) by {
                        assert(slot_ok(cs0, h, xi, yi));
                        lemma_index_in_range(xx, h, xi, yi);
                        lemma_index_lt(h, xi, yi, xx, yy);
                    }
                    assert forall|yi: int| 0 <= yi < yy implies #[trigger] slot_ok(
                        cells@,
                        h,
                        xx,
                        yi,
                    ) by {
                        assert(slot_ok(cs0, h, xx, yi));
                        lemma_index_in_range(xx + 1, h, xx, yi);
                        lemma_index_lt(h, xx, yi, xx, yy);
                    }
                }
            }
            x = x + 1;
            proof {
                assert(cells@.len() == dim_count(x as int, height as int)) by (nonlinear_arith)
                    requires
                        cells@.len() == dim_count(x as int - 1, height as int) + (if height > 0 {
                            height as int
                        } else {
                            0
                        }),
                        0 < x,
                ;
            }
        }
        let g = Grid { cells, width, height };
        proof {
            assert forall|xc: int, yc: int| g@.in_bounds(xc, yc) implies #[trigger] g.cell_ok(
                xc,
                yc,
            ) by {
                assert(slot_ok(g.cells@, g.height as int, xc, yc));
            }
        }
        g
    }
}

impl Grid {
    /// The cell at `(x, y)`, looked up by its storage index.
    pub fn get_cell(&self, x: i32, y: i32) -> (c: Cell)
        requires
            self.wf(),
            self@.in_bounds(x as int, y as int),
        ensures
            c == self.cell_at(x as int, y as int),
    {
        proof {
            lemma_index_in_range(self.width as int, self.height as int, x as int, y as int);
        }
        let idx = (x as usize) * (self.height as usize) + (y as usize);
        self.cells[idx]
    }
}

/// What the cell at `(x, y)` becomes after one generation: the rule applied
/// to its state and live-neighbor count, identifier and position kept.
pub open spec fn stepped_cell(g: Grid, x: int, y: int) -> Cell {
    Cell {
        state: life_rule(g@.alive_at(x, y), g@.live_neighbor_count(x, y)),
        ..g.cell_at(x, y)
    }
}

/// The slot of `next` for coordinate `(x, y)` holds the stepped cell of `g`.
pub open spec fn slot_stepped(next: Seq<Cell>, g: Grid, x: int, y: int) -> bool {
    next[x * (g.height as int) + y] == stepped_cell(g, x, y)
}

impl Grid {
    /// One generation pass. Every cell's next state is computed from the
    /// current collection — the previous-generation snapshot — and written to
    /// a working copy, which replaces the whole collection at once, so no
    /// rule evaluation ever observes a partially updated generation.
    pub fn update(&mut self)
        requires
            old(self).wf(),
        ensures
            final(self).wf(),
            final(self).width == old(self).width,
            final(self).height == old(self).height,
            final(self).cells@.len() == old(self).cells@.len(),
            forall|i: int|
                0 <= i < old(self).cells@.len() ==> {
                    let c0 = old(self).cells@[i];
                    let c1 = #[trigger] final(self).cells@[i];
                    c1.id == c0.id && c1.position == c0.position
                },
            final(self)@ == old(self)@.step(),
    {
        let ghost h = self.height as int;
        let ghost w = self.width as int;
        let mut next: Vec<Cell> = Vec::new();
        let mut x: i32 = 0;
        while x < self.width
            invariant
                self.wf(),
                *self == *old(self),
                0 <= x,
                self.width > 0 ==> x <= self.width,
                self.width <= 0 ==> x == 0,
                h == self.height as int,
                w == self.width as int,
                next@.len() == dim_count(x as int, h),
                forall|xi: int, yi: int|
                    0 <= xi < x && 0 <= yi < h ==> #[trigger] slot_stepped(next@, *self, xi, yi),
            decreases self.width - x,
        {
            let mut y: i32 = 0;
            while y < self.height
                invariant
                    self.wf(),
                    *self == *old(self),
                    0 <= x < self.width,
                    0 <= y,
                    self.height > 0 ==> y <= self.height,
                    self.height <= 0 ==> y == 0,
                    h == self.height as int,
                    w == self.width as int,
                    next@.len() == dim_count(x as int, h) + y,
                    forall|xi: int, yi: int|
                        0 <= xi < x && 0 <= yi < h ==> #[trigger] slot_stepped(
                            next@,
                            *self,
                            xi,
                            yi,
                        ),
                    forall|yi: int|
                        0 <= yi < y ==> #[trigger] slot_stepped(next@, *self, x as int, yi),
                decreases self.height - y,
            {
                let ghost ns0 = next@;
                let ghost xx = x as int;
                let ghost yy = y as int;
                proof {
                    lemma_index_in_range(w, h, xx, yy);
                    assert(dim_count(xx, h) == xx * h) by (nonlinear_arith)
                        requires
                            0 <= xx,
                            0 <= yy < h,
                    ;
                    assert(self.cell_ok(xx, yy));
                }
                let idx = (x as usize) * (self.height as usize) + (y as usize);
                let mut c = self.cells[idx];
                let n = self.count_live_neighbors(&c);
                c.update_state(n);
                next.push(c);
                y = y + 1;
                proof {
                    assert(ns0.len() == xx * h + yy);
                    assert(c == stepped_cell(*self, xx, yy));
                    assert(slot_stepped(next@, *self, xx, yy));
                    assert forall|xi: int, yi: int|
                        0 <= xi < xx && 0 <= yi < h implies #[trigger] slot_stepped(
                        next@,
                        *self,
                        xi,
                        yi,
                    ) by {
                        assert(slot_stepped(ns0, *self, xi, yi));
                        lemma_index_in_range(xx, h, xi, yi);
                        lemma_index_lt(h, xi, yi, xx, yy);
                    }
                    assert forall|yi: int| 0 <= yi < yy implies #[trigger] slot_stepped(
                        next@,
                        *self,
                        xx,
                        yi,
                    ) by {
                        assert(slot_stepped(ns0, *self, xx, yi));
                        lemma_index_in_range(xx + 1, h, xx, yi);
                        lemma_index_lt(h, xx, yi, xx, yy);
                    }
                }
            }
            x = x + 1;
            proof {
                assert(next@.len() == dim_count(x as int, h)) by (nonlinear_arith)
                    requires
                        next@.len() == dim_count(x as int - 1, h) + (if h > 0 {
                            h
                        } else {
                            0
                        }),
                        0 < x,
                ;
            }
        }
        let ghost nseq = next@;
        let ghost g0 = *self;
        self.cells = next;
        proof {
            assert(final(self).cells@ == nseq);
            assert forall|xc: int, yc: int|
                final(self)@.in_bounds(xc, yc) implies #[trigger] final(self).cell_ok(xc, yc) by {
                assert(slot_stepped(nseq, g0, xc, yc));
                assert(g0.cell_ok(xc, yc));
                lemma_index_in_range(w, h, xc, yc);
            }
            assert(final(self).wf());
            assert forall|i: int| 0 <= i < g0.cells@.len() implies {
                let c0 = g0.cells@[i];
                let c1 = #[trigger] final(self).cells@[i];
                c1.id == c0.id && c1.position == c0.position && c1.state == g0@.step().alive[i]
            } by {
                lemma_view_index_coords(g0@, i);
                let xc = i / h;
                let yc = i % h;
                assert(slot_stepped(nseq, g0, xc, yc));
                assert(g0.cell_ok(xc, yc));
                vstd::arithmetic::div_mod::lemma_fundamental_div_mod_converse(i, h, xc, yc);
            }
            assert(final(self)@.alive =~= g0@.step().alive);
            assert(final(self)@ == g0@.step());
        }
    }
}

} // verus!
