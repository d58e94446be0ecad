//! A single grid position and the rule that drives its state.

use vstd::prelude::*;

verus! {

/// One grid position: a fixed identifier, a fixed `(x, y)` coordinate, and an
/// alive/dead state. Only `state` ever changes after construction.
#[derive(Clone, Copy)]
pub struct Cell {
    pub id: i32,
    pub state: bool,
    pub position: (i32, i32),
}

/// Conway's rule: whether a cell is alive in the next generation, given its
/// current state and its live-neighbor count.
///
/// An alive cell survives exactly with 2 or 3 live neighbors
/// (underpopulation below, overpopulation above); a dead cell is born
/// exactly with 3 live neighbors.
pub open spec fn life_rule(alive: bool, live_neighbors: int) -> bool {
    if alive {
        2 <= live_neighbors <= 3
    } else {
        live_neighbors == 3
    }
}

impl Cell {
    pub fn new(id: i32, state: bool, position: (i32, i32)) -> (c: Cell)
        ensures
            c.id == id,
            c.state == state,
            c.position == position,
    {
        Cell { id, state, position }
    }

    pub fn is_alive(&self) -> (alive: bool)
        ensures
            alive == self.state,
    {
        self.state
    }

    /// One rule application: the new state is a function of the old state and
    /// the live-neighbor count alone; identifier and position never change.
    pub fn update_state(&mut self, live_neighbors: i32)
        ensures
            final(self).state == life_rule(old(self).state, live_neighbors as int),
            final(self).id == old(self).id,
            final(self).position == old(self).position,
    {
        if self.state {
            if live_neighbors < 2 || live_neighbors > 3 {
                self.state = false;
            }
        } else {
            if live_neighbors == 3 {
                self.state = true;
            }
        }
    }
}

} // verus!
