//! The simulation driver and the entropy utility.

use kade::entropy::generate_random;
use kade::grid::Grid;
use kade::sim::{run_simulation, simulate};

#[test]
fn simulate_all_dead_transcript_is_exact() {
    let mut g = Grid::new(2, 2);
    let out = simulate(&mut g, 1);
    assert_eq!(
        out,
        "Generation 0:\n□ □ \n□ □ \n\nGeneration 1:\n□ □ \n□ □ \n"
    );
}

#[test]
fn simulate_zero_generations_renders_once() {
    let mut g = Grid::new(1, 2);
    let out = simulate(&mut g, 0);
    assert_eq!(out, "Generation 0:\n□ \n□ \n");
}

#[test]
fn simulate_negative_generations_renders_once() {
    let mut g = Grid::new(1, 1);
    let out = simulate(&mut g, -3);
    assert_eq!(out, "Generation 0:\n□ \n");
}

#[test]
fn run_simulation_zero_generations_is_one_block() {
    let out = run_simulation(3, 3, 0);
    assert_eq!(out.len(), "Generation 0:\n".len() + 3 * (3 * "□ ".len() + 1));
    let lines: Vec<&str> = out.lines().collect();
    assert_eq!(lines.len(), 4);
    assert_eq!(lines[0], "Generation 0:");
    for line in &lines[1..] {
        assert_eq!(line.chars().count(), 6);
        for (i, ch) in line.chars().enumerate() {
            if i % 2 == 0 {
                assert!(ch == '■' || ch == '□');
            } else {
                assert_eq!(ch, ' ');
            }
        }
    }
}

#[test]
fn run_simulation_emits_each_generation_header() {
    let out = run_simulation(2, 2, 2);
    assert!(out.starts_with("Generation 0:\n"));
    assert!(out.contains("\n\nGeneration 1:\n"));
    assert!(out.contains("\n\nGeneration 2:\n"));
    assert_eq!(out.matches("Generation").count(), 3);
}

#[test]
fn run_simulation_renders_two_digit_generations() {
    let out = run_simulation(1, 1, 11);
    assert!(out.contains("\n\nGeneration 10:\n"));
    assert!(out.contains("\n\nGeneration 11:\n"));
    assert_eq!(out.matches("Generation").count(), 12);
}

#[test]
fn run_simulation_with_no_cells_renders_empty_rows() {
    assert_eq!(run_simulation(0, 0, 0), "Generation 0:\n");
    assert_eq!(run_simulation(-3, 2, 0), "Generation 0:\n\n\n");
    assert_eq!(run_simulation(2, -1, 1), "Generation 0:\n\nGeneration 1:\n");
}

#[test]
fn generate_random_returns_32_bytes() {
    let bytes = generate_random().unwrap();
    assert_eq!(bytes.len(), 32);
}

#[test]
fn generate_random_actually_fills_the_buffer() {
    // Two independent 256-bit draws are never both all zero unless the
    // entropy call did not write the buffer at all.
    let a = generate_random().unwrap();
    let b = generate_random().unwrap();
    assert!(a.iter().any(|&x| x != 0) || b.iter().any(|&x| x != 0));
}
