//! Grid construction, neighbor resolution, and the generation update.

use kade::grid::Grid;

#[test]
fn interior_cell_has_eight_neighbors() {
    let g = Grid::new(3, 3);
    let c = g.get_cell(1, 1);
    assert_eq!(g.get_neighbors(&c).len(), 8);
}

#[test]
fn corner_cells_have_three_neighbors() {
    let g = Grid::new(3, 3);
    for (x, y) in [(0, 0), (0, 2), (2, 0), (2, 2)] {
        let c = g.get_cell(x, y);
        assert_eq!(g.get_neighbors(&c).len(), 3);
    }
}

#[test]
fn edge_cells_have_five_neighbors() {
    let g = Grid::new(3, 3);
    for (x, y) in [(1, 0), (0, 1), (2, 1), (1, 2)] {
        let c = g.get_cell(x, y);
        assert_eq!(g.get_neighbors(&c).len(), 5);
    }
}

#[test]
fn neighbors_are_the_adjacent_cells() {
    let g = Grid::new(4, 4);
    let c = g.get_cell(2, 2);
    let neighbors = g.get_neighbors(&c);
    for n in &neighbors {
        let dx = (n.position.0 - 2).abs();
        let dy = (n.position.1 - 2).abs();
        assert!(dx <= 1 && dy <= 1 && (dx, dy) != (0, 0));
    }
}

#[test]
fn new_grid_has_one_dead_cell_per_coordinate() {
    let g = Grid::new(4, 3);
    assert_eq!(g.cells.len(), 12);
    let mut seen = vec![false; 12];
    for c in &g.cells {
        assert!(!c.is_alive());
        let (x, y) = c.position;
        assert!((0..4).contains(&x) && (0..3).contains(&y));
        let slot = (x * 3 + y) as usize;
        assert!(!seen[slot]);
        seen[slot] = true;
    }
}

#[test]
fn new_grid_ids_follow_traversal_order() {
    let g = Grid::new(2, 3);
    for (i, c) in g.cells.iter().enumerate() {
        assert_eq!(c.id, i as i32);
        assert_eq!(c.position, ((i / 3) as i32, (i % 3) as i32));
    }
}

#[test]
fn zero_sized_grids_have_no_cells() {
    assert_eq!(Grid::new(0, 5).cells.len(), 0);
    assert_eq!(Grid::new(5, 0).cells.len(), 0);
    assert_eq!(Grid::new(-2, 7).cells.len(), 0);
}

#[test]
fn update_on_all_dead_grid_keeps_it_dead() {
    let mut g = Grid::new(5, 4);
    g.update();
    assert!(g.cells.iter().all(|c| !c.is_alive()));
}

#[test]
fn lone_cell_dies_and_none_is_born() {
    let mut g = Grid::new(3, 3);
    g.cells[4].state = true; // (1, 1)
    g.update();
    assert!(g.cells.iter().all(|c| !c.is_alive()));
}

#[test]
fn block_is_a_still_life() {
    let mut g = Grid::new(2, 2);
    for c in g.cells.iter_mut() {
        c.state = true;
    }
    let before: Vec<(i32, bool, (i32, i32))> =
        g.cells.iter().map(|c| (c.id, c.state, c.position)).collect();
    for _ in 0..4 {
        g.update();
        let after: Vec<(i32, bool, (i32, i32))> =
            g.cells.iter().map(|c| (c.id, c.state, c.position)).collect();
        assert_eq!(after, before);
    }
}

#[test]
fn blinker_oscillates() {
    let mut g = Grid::new(3, 3);
    // a vertical bar in column x = 1
    g.cells[3].state = true; // (1, 0)
    g.cells[4].state = true; // (1, 1)
    g.cells[5].state = true; // (1, 2)
    assert_eq!(g.print(), "□ ■ □ \n□ ■ □ \n□ ■ □ \n");
    g.update();
    assert_eq!(g.print(), "□ □ □ \n■ ■ ■ \n□ □ □ \n");
    g.update();
    assert_eq!(g.print(), "□ ■ □ \n□ ■ □ \n□ ■ □ \n");
}

#[test]
fn print_one_dead_cell() {
    let g = Grid::new(1, 1);
    assert_eq!(g.print(), "\u{25a1} \n");
}

#[test]
fn print_is_row_major() {
    let mut g = Grid::new(2, 2);
    g.cells[1].state = true; // (0, 1)
    // row y = 0 first: both dead at (0,0), alive? (1,0) dead. Then row y = 1.
    assert_eq!(g.print(), "□ □ \n■ □ \n");
}

#[test]
fn random_grid_with_zero_threshold_is_all_dead() {
    let g = Grid::new_random(6, 5, 0);
    assert_eq!(g.cells.len(), 30);
    assert!(g.cells.iter().all(|c| !c.is_alive()));
}

#[test]
fn random_grid_keeps_structure() {
    let g = Grid::new_random(4, 4, kade::sim::SEED_ALIVE_THRESHOLD);
    assert_eq!(g.width, 4);
    assert_eq!(g.height, 4);
    assert_eq!(g.cells.len(), 16);
    for (i, c) in g.cells.iter().enumerate() {
        assert_eq!(c.id, i as i32);
        assert_eq!(c.position, ((i / 4) as i32, (i % 4) as i32));
    }
}
