//! Plain cell and grid representations.

use cellular_automaton::grid::twodim::GridCoord;
use cellular_automaton::repr::CellRepr;
use cellular_automaton::repr::GridRepr;
use cellular_automaton::repr::SimpleConsumer;
use cellular_automaton::traits::Coord;

#[test]
fn test_cell_repr_keeps_state() {
    let pairs = vec![(String::from("s"), String::from("a"))];
    let repr = CellRepr::new(GridCoord::from_2d(2, 1), Some(pairs));
    assert_eq!(repr.coord.x(), 2);
    assert_eq!(repr.coord.y(), 1);
    assert_eq!(repr.state.len(), 1);
    assert_eq!(repr.state[0].0, "s");
    assert_eq!(repr.state[0].1, "a");

    let empty = CellRepr::new(GridCoord::from_2d(0, 0), None);
    assert!(empty.state.is_empty());
}

#[test]
fn test_grid_repr_and_consumer() {
    let cells = vec![
        CellRepr::new(GridCoord::from_2d(0, 0), Some(vec![(String::from("s"), String::from("d"))])),
        CellRepr::new(GridCoord::from_2d(1, 0), None),
    ];
    let repr = GridRepr::new(1, 2, Some(cells));
    assert_eq!(repr.rows, 1);
    assert_eq!(repr.cols, 2);
    assert_eq!(repr.cells.len(), 2);

    let empty: GridRepr<GridCoord> = GridRepr::new(3, 3, None);
    assert!(empty.cells.is_empty());

    let mut consumer = SimpleConsumer::new();
    consumer.consume(&repr);
}
