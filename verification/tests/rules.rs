//! The per-cell rule, branch by branch.

use kade::cell::Cell;

#[test]
fn alive_with_one_neighbor_dies() {
    let mut c = Cell::new(0, true, (0, 0));
    c.update_state(1);
    assert!(!c.is_alive());
}

#[test]
fn alive_with_zero_neighbors_dies() {
    let mut c = Cell::new(0, true, (0, 0));
    c.update_state(0);
    assert!(!c.is_alive());
}

#[test]
fn alive_with_two_neighbors_survives() {
    let mut c = Cell::new(1, true, (2, 3));
    c.update_state(2);
    assert!(c.is_alive());
}

#[test]
fn alive_with_three_neighbors_survives() {
    let mut c = Cell::new(1, true, (2, 3));
    c.update_state(3);
    assert!(c.is_alive());
}

#[test]
fn alive_with_four_neighbors_dies() {
    let mut c = Cell::new(2, true, (1, 1));
    c.update_state(4);
    assert!(!c.is_alive());
}

#[test]
fn alive_with_eight_neighbors_dies() {
    let mut c = Cell::new(2, true, (1, 1));
    c.update_state(8);
    assert!(!c.is_alive());
}

#[test]
fn dead_with_three_neighbors_is_born() {
    let mut c = Cell::new(3, false, (0, 2));
    c.update_state(3);
    assert!(c.is_alive());
}

#[test]
fn dead_with_two_neighbors_stays_dead() {
    let mut c = Cell::new(3, false, (0, 2));
    c.update_state(2);
    assert!(!c.is_alive());
}

#[test]
fn dead_with_four_neighbors_stays_dead() {
    let mut c = Cell::new(3, false, (0, 2));
    c.update_state(4);
    assert!(!c.is_alive());
}

#[test]
fn update_state_keeps_identity() {
    let mut c = Cell::new(7, false, (4, 5));
    c.update_state(3);
    assert_eq!(c.id, 7);
    assert_eq!(c.position, (4, 5));
}
