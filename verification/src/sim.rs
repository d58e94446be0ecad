//! The simulation driver: runs generations and renders the transcript.

use vstd::prelude::*;
use vstd::string::StringExecFns;

use crate::grid::{dim_count, Grid, GridView};

verus! {

/// Seeding threshold handed to `Grid::new_random` by the driver: a draw
/// below this is alive. The value is the nearest integer to three tenths of
/// 2^32, so each cell starts alive with probability 0.3.
pub const SEED_ALIVE_THRESHOLD: u32 = 1288490189;

pub open spec fn digit_char(d: int) -> char {
    if d == 0 {
        '0'
    } else if d == 1 {
        '1'
    } else if d == 2 {
        '2'
    } else if d == 3 {
        '3'
    } else if d == 4 {
        '4'
    } else if d == 5 {
        '5'
    } else if d == 6 {
        '6'
    } else if d == 7 {
        '7'
    } else if d == 8 {
        '8'
    } else {
        '9'
    }
}

/// The decimal rendering of `n`, most significant digit first.
pub open spec fn dec_seq(n: int) -> Seq<char>
    decreases n,
{
    if n < 10 {
        seq![digit_char(n)]
    } else {
        dec_seq(n / 10) + seq![digit_char(n % 10)]
    }
}

/// The header line announcing generation `n`.
pub open spec fn header(n: int) -> Seq<char> {
    "Generation "@ + dec_seq(n) + ":\n"@
}

/// The full transcript of a run: the generation-0 block, then one block per
/// update pass, each non-zero block preceded by a single newline. A
/// non-positive generation count yields only the generation-0 block.
pub open spec fn transcript(v: GridView, generations: int) -> Seq<char>
    decreases generations,
{
    if generations <= 0 {
        header(0) + v.render()
    } else {
        transcript(v, generations - 1) + seq!['\n'] + header(generations) + v.after(
            generations as nat,
        ).render()
    }
}

fn digit_str(d: u32) -> (s: &'static str)
    requires
        d < 10,
    ensures
        s@ == seq![digit_char(d as int)],
{
    let s: &'static str = match d {
        0 => "0",
        1 => "1",
        2 => "2",
        3 => "3",
        4 => "4",
        5 => "5",
        6 => "6",
        7 => "7",
        8 => "8",
        _ => "9",
    };
    proof {
        reveal_strlit("0");
        reveal_strlit("1");
        reveal_strlit("2");
        reveal_strlit("3");
        reveal_strlit("4");
        reveal_strlit("5");
        reveal_strlit("6");
        reveal_strlit("7");
        reveal_strlit("8");
        reveal_strlit("9");
        assert(s@ =~= seq![digit_char(d as int)]);
    }
    s
}

/// Renders `n` in decimal.
fn u32_to_string(n: u32) -> (out: String)
    ensures
        out@ == dec_seq(n as int),
    decreases n,
{
    if n < 10 {
        String::from_str(digit_str(n))
    } else {
        let mut out = u32_to_string(n / 10);
        out.append(digit_str(n % 10));
        out
    }
}

/// Runs `generations` update passes from the given starting grid, rendering
/// generation 0 and every generation after its pass. The transcript is a
/// function of the starting state alone.
pub fn simulate(grid: &mut Grid, generations: i32) -> (out: String)
    requires
        old(grid).wf(),
    ensures
        final(grid).wf(),
        out@ == transcript(old(grid)@, generations as int),
        final(grid)@ == old(grid)@.after(
            if generations >= 0 {
                generations as nat
            } else {
                0nat
            },
        ),
{
    let ghost v0 = grid@;
    let mut out = String::from_str("Generation 0:\n");
    let rendered = grid.print();
    out.append(rendered.as_str());
    proof {
        reveal_strlit("Generation 0:\n");
        reveal_strlit("Generation ");
        reveal_strlit(":\n");
        reveal_strlit("0");
        assert(out@ =~= transcript(v0, 0));
    }
    let mut i: i64 = 1;
    while i <= generations as i64
        invariant
            grid.wf(),
            1 <= i,
            generations >= 1 ==> i <= generations as i64 + 1,
            generations < 1 ==> i == 1,
            grid@ == v0.after((i - 1) as nat),
            out@ == transcript(v0, i - 1),
        decreases generations as int + 1 - i,
    {
        grid.update();
        out.append("\nGeneration ");
        let num = u32_to_string(i as u32);
        out.append(num.as_str());
        out.append(":\n");
        let rendered = grid.print();
        out.append(rendered.as_str());
        proof {
            reveal_strlit("\nGeneration ");
            reveal_strlit("Generation ");
            reveal_strlit(":\n");
            assert(grid@ == v0.after(i as nat));
            assert(out@ =~= transcript(v0, i as int));
        }
        i = i + 1;
    }
    proof {
        if generations < 1 {
            assert(transcript(v0, generations as int) == transcript(v0, 0));
        }
    }
    out
}

/// Runs a full simulation: builds a `new_random` board seeded at
/// `SEED_ALIVE_THRESHOLD`, then renders generation 0 and `generations`
/// update passes. The result is the transcript of some well-formed starting
/// state of the requested dimensions — which one depends on the random
/// seeding alone.
pub fn run_simulation(width: i32, height: i32, generations: i32) -> (out: String)
    requires
        dim_count(width as int, height as int) <= i32::MAX as int,
    ensures
        exists|v: GridView|
            {
                &&& v.wf()
                &&& v.width == width as int
                &&& v.height == height as int
                &&& out@ == transcript(v, generations as int)
            },
{
    let mut grid = Grid::new_random(width, height, SEED_ALIVE_THRESHOLD);
    let ghost v0 = grid@;
    let out = simulate(&mut grid, generations);
    proof {
        assert({
            &&& v0.wf()
            &&& v0.width == width as int
            &&& v0.height == height as int
            &&& out@ == transcript(v0, generations as int)
        });
    }
    out
}

} // verus!
