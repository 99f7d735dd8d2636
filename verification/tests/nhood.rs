//! The neighborhood strategies name the right coordinates, in the
//! documented order.

use cellular_automaton::grid::nhood::MooreNhood;
use cellular_automaton::grid::nhood::VonNeumannNhood;
use cellular_automaton::traits::Nhood;

#[test]
fn test_moore_nhood() {
    let nhood = MooreNhood::new();

    let center = (1, 1);

    let neighbors = nhood.neighbors(&center);
    assert_eq!(neighbors.len(), nhood.neighbors_count());

    assert_eq!(neighbors[0], (0, 0));
    assert_eq!(neighbors[1], (1, 0));
    assert_eq!(neighbors[2], (2, 0));
    assert_eq!(neighbors[3], (0, 1));
    assert_eq!(neighbors[4], (2, 1));
    assert_eq!(neighbors[5], (0, 2));
    assert_eq!(neighbors[6], (1, 2));
    assert_eq!(neighbors[7], (2, 2));
}

#[test]
fn test_von_neumann_nhood() {
    let nhood = VonNeumannNhood::new();

    let center = (1, 1);

    let neighbors = nhood.neighbors(&center);
    assert_eq!(neighbors.len(), nhood.neighbors_count());

    assert_eq!(neighbors[0], (1, 0));
    assert_eq!(neighbors[1], (0, 1));
    assert_eq!(neighbors[2], (2, 1));
    assert_eq!(neighbors[3], (1, 2));
}

#[test]
fn test_nhood_at_negative_coordinates() {
    // The strategy does not clamp: coordinates outside any grid come
    // back as they are; bounds are the grid's business.
    let nhood = MooreNhood::new();
    let corner = (0, 0);
    let neighbors = nhood.neighbors(&corner);
    assert_eq!(neighbors[0], (-1, -1));
    assert_eq!(neighbors[1], (0, -1));
    assert_eq!(neighbors[3], (-1, 0));
}
