//! Text rendering of a grid: one glyph pair per cell, one line per row.

use vstd::prelude::*;
use vstd::string::StringExecFns;

use crate::grid::{lemma_index_in_range, Grid, GridView};

verus! {

/// The two-character convention: a filled square for an alive cell, a hollow
/// square for a dead one, each followed by a single space.
pub open spec fn glyph(alive: bool) -> Seq<char> {
    if alive {
        seq!['■', ' ']
    } else {
        seq!['□', ' ']
    }
}

impl GridView {
    /// The glyphs of the first `n` columns of row `y`.
    pub open spec fn render_cols(self, y: int, n: int) -> Seq<char>
        decreases n,
    {
        if n <= 0 {
            Seq::empty()
        } else {
            self.render_cols(y, n - 1) + glyph(self.alive_at(n - 1, y))
        }
    }

    /// The first `n` rows, rendered top to bottom, each row one line of
    /// `width` glyph pairs closed by a newline.
    pub open spec fn render_rows(self, n: int) -> Seq<char>
        decreases n,
    {
        if n <= 0 {
            Seq::empty()
        } else {
            self.render_rows(n - 1) + self.render_cols(n - 1, self.width) + seq!['\n']
        }
    }

    /// The whole board as text: `height` lines, row-major by `y` (outer) and
    /// `x` (inner), whatever order the cells are stored in.
    pub open spec fn render(self) -> Seq<char> {
        self.render_rows(self.height)
    }
}

pub proof fn lemma_render_cols_len(v: GridView, y: int, n: int)
    requires
        0 <= n,
    ensures
        v.render_cols(y, n).len() == 2 * n,
    decreases n,
{
    if n > 0 {
        lemma_render_cols_len(v, y, n - 1);
    }
}

/// Each rendered row is `2 * width + 1` characters, so `n` rows render to
/// `n * (2 * width + 1)` characters.
pub proof fn lemma_render_rows_len(v: GridView, n: int)
    requires
        0 <= n,
        0 <= v.width,
    ensures
        v.render_rows(n).len() == n * (2 * v.width + 1),
    decreases n,
{
    if n > 0 {
        lemma_render_rows_len(v, n - 1);
        lemma_render_cols_len(v, n - 1, v.width);
        assert(v.render_rows(n).len() == v.render_rows(n - 1).len() + v.render_cols(
            n - 1,
            v.width,
        ).len() + 1);
        assert((n - 1) * (2 * v.width + 1) + 2 * v.width + 1 == n * (2 * v.width + 1))
            by (nonlinear_arith);
    } else {
        assert(n * (2 * v.width + 1) == 0) by (nonlinear_arith)
            requires
                n == 0,
        ;
    }
}

impl Grid {
    /// Renders the board: for each row `y`, the glyph pair of every cell from
    /// `x = 0` to `width - 1`, then a newline.
    pub fn print(&self) -> (out: String)
        requires
            self.wf(),
        ensures
            out@ == self@.render(),
    {
        let mut out = String::new();
        let mut y: i32 = 0;
        while y < self.height
            invariant
                self.wf(),
                0 <= y,
                self.height > 0 ==> y <= self.height,
                self.height <= 0 ==> y == 0,
                out@ == self@.render_rows(y as int),
            decreases self.height - y,
        {
            let mut x: i32 = 0;
            while x < self.width
                invariant
                    self.wf(),
                    0 <= y < self.height,
                    0 <= x,
                    self.width > 0 ==> x <= self.width,
                    self.width <= 0 ==> x == 0,
                    out@ == self@.render_rows(y as int) + self@.render_cols(y as int, x as int),
                decreases self.width - x,
            {
                proof {
                    lemma_index_in_range(self.width as int, self.height as int, x as int, y as int);
                    assert(self.cell_ok(x as int, y as int));
                }
                let idx = (x as usize) * (self.height as usize) + (y as usize);
                if self.cells[idx].is_alive() {
                    out.append("■ ");
                } else {
                    out.append("□ ");
                }
                proof {
                    reveal_strlit("■ ");
                    reveal_strlit("□ ");
                    assert(out@ =~= self@.render_rows(y as int) + self@.render_cols(
                        y as int,
                        x as int + 1,
                    ));
                }
                x = x + 1;
            }
            out.append("\n");
            proof {
                reveal_strlit("\n");
                assert(out@ =~= self@.render_rows(y as int + 1));
            }
            y = y + 1;
        }
        out
    }
}

} // verus!
