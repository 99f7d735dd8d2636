//! Conway's Game of Life through the whole engine: the vertical spinner
//! alternates between its two phases.

use cellular_automaton::engine::Sequential;
use cellular_automaton::grid::nhood::MooreNhood;
use cellular_automaton::grid::twodim::TwodimGrid;
use cellular_automaton::grid::EmptyState;
use cellular_automaton::life::Life;
use cellular_automaton::life::LifeState;
use cellular_automaton::traits::Consumer;
use cellular_automaton::traits::Coord;
use cellular_automaton::traits::Engine;
use cellular_automaton::traits::Grid;

fn find_cell(cells: &[Life], x: i32, y: i32) -> Life {
    assert!(cells.iter().any(|c| c.coord.0 == x && c.coord.1 == y));

    *cells
        .iter()
        .find(|c| c.coord.0 == x && c.coord.1 == y)
        .unwrap()
}

fn pretty_print<G: Grid<Cell = Life>>(grid: &G) {
    let dims = grid.size();

    println!();

    for y in 0..dims.y() {
        let mut row = String::new();
        for x in 0..dims.x() {
            let cell = find_cell(grid.cells(), x, y);
            match cell.state {
                LifeState::Dead => row.push_str("D |"),
                LifeState::Alive => row.push_str("A |"),
            };
        }
        println!("{}", row);
    }

    println!();
}

struct SpinnerTestConsumer {
    vertical: bool,
}

impl SpinnerTestConsumer {
    pub fn new() -> Self {
        SpinnerTestConsumer { vertical: true }
    }
}

impl Consumer for SpinnerTestConsumer {
    type Cell = Life;

    fn consume<G: Grid<Cell = Life>>(&mut self, grid: &mut G) {
        assert_eq!(grid.cells().len(), 9);

        pretty_print(grid);

        let dead_cells_count = grid
            .cells()
            .iter()
            .filter(|c| c.state == LifeState::Dead)
            .count();
        assert_eq!(dead_cells_count, 6);

        let alive_cells: Vec<&Life> = grid
            .cells()
            .iter()
            .filter(|c| c.state == LifeState::Alive)
            .collect();
        assert_eq!(alive_cells.len(), 3);

        self.vertical = !self.vertical;

        // if spinner is in vertical state
        if alive_cells.iter().all(|c| c.coord.0 == 1) {
            assert!(self.vertical);
        }
        // if spinner is in horizontal state
        if alive_cells.iter().all(|c| c.coord.1 == 1) {
            assert!(!self.vertical);
        }
    }
}

#[test]
fn life_test_game_of_life() {
    let nhood = MooreNhood::new();
    let mut grid: TwodimGrid<Life, _> = TwodimGrid::new(3, 3, nhood, EmptyState, 1);

    // Should be in default state
    let default_state = LifeState::Dead;
    assert!(grid.cells().iter().all(|c| c.state == default_state));

    // Vertical spinner
    // D | A | D
    // D | A | D
    // D | A | D
    let cells = vec![
        Life { state: LifeState::Alive, coord: (1, 0) },
        Life { state: LifeState::Alive, coord: (1, 1) },
        Life { state: LifeState::Alive, coord: (1, 2) },
    ];

    grid.set_cells(cells);

    pretty_print(&grid);

    let consumer = SpinnerTestConsumer::new();
    let mut engine = Sequential::new(grid, consumer);
    engine.run_times(2);
}

#[test]
fn test_test_game_of_life() {
    // Vertical spinner, seeded cell by cell; cells not specified keep
    // the default dead state.
    let cells = vec![
        Life { state: LifeState::Alive, coord: (1, 0) },
        Life { state: LifeState::Alive, coord: (1, 1) },
        Life { state: LifeState::Alive, coord: (1, 2) },
    ];

    {
        let alive_cells: Vec<&Life> =
            cells.iter().filter(|c| c.state == LifeState::Alive).collect();
        assert_eq!(alive_cells.len(), 3);
    }

    let nhood = MooreNhood::new();
    let mut grid: TwodimGrid<Life, _> = TwodimGrid::new(3, 3, nhood, EmptyState, 1);
    grid.set_cells(cells);

    let consumer = SpinnerTestConsumer::new();
    let mut engine = Sequential::new(grid, consumer);
    engine.run_times(2);
}

#[test]
fn test_spinner_phases_exactly() {
    let nhood = MooreNhood::new();
    let mut grid: TwodimGrid<Life, _> = TwodimGrid::new(3, 3, nhood, EmptyState, 1);
    grid.set_cells(vec![
        Life { state: LifeState::Alive, coord: (1, 0) },
        Life { state: LifeState::Alive, coord: (1, 1) },
        Life { state: LifeState::Alive, coord: (1, 2) },
    ]);

    // After one generation: the horizontal triple at row 1.
    grid.update();
    for y in 0..3 {
        for x in 0..3 {
            let cell = find_cell(grid.cells(), x, y);
            let expected = if y == 1 { LifeState::Alive } else { LifeState::Dead };
            assert_eq!(cell.state, expected);
        }
    }

    // After two: back to the vertical triple at column 1.
    grid.update();
    for y in 0..3 {
        for x in 0..3 {
            let cell = find_cell(grid.cells(), x, y);
            let expected = if x == 1 { LifeState::Alive } else { LifeState::Dead };
            assert_eq!(cell.state, expected);
        }
    }
}

#[test]
fn test_life_rule_counts() {
    // The rule itself, on handmade neighbor views: birth on exactly
    // three, survival on two or three.
    let dead = Life { state: LifeState::Dead, coord: (0, 0) };
    let alive = Life { state: LifeState::Alive, coord: (0, 0) };

    let view = |alive_count: usize| -> Vec<Option<Life>> {
        let mut v: Vec<Option<Life>> = Vec::new();
        for _ in 0..alive_count {
            v.push(Some(alive));
        }
        while v.len() < 8 {
            v.push(None);
        }
        v
    };

    assert_eq!(dead.alive_count(&view(3)), 3);
    assert_eq!(alive.alive_count(&view(8)), 8);
    assert_eq!(dead.alive_count(&view(0)), 0);

    assert_eq!(dead.dead_state(3), LifeState::Alive);
    assert_eq!(dead.dead_state(2), LifeState::Dead);
    assert_eq!(alive.alive_state(2), LifeState::Alive);
    assert_eq!(alive.alive_state(3), LifeState::Alive);
    assert_eq!(alive.alive_state(1), LifeState::Dead);
    assert_eq!(alive.alive_state(4), LifeState::Dead);
}
