//! The grid engine: neighbor views, sparse replacement, partitioning,
//! order independence and the once-per-generation state advance.

use cellular_automaton::grid::nhood::MooreNhood;
use cellular_automaton::grid::twodim::iter::collect_view;
use cellular_automaton::grid::twodim::iter::Iter;
use cellular_automaton::grid::twodim::GridCoord;
use cellular_automaton::grid::twodim::TwodimGrid;
use cellular_automaton::grid::EmptyState;
use cellular_automaton::grid::TickState;
use cellular_automaton::life::Life;
use cellular_automaton::life::LifeState;
use cellular_automaton::tally::TallyCell;
use cellular_automaton::traits::Coord;
use cellular_automaton::traits::Grid;

fn find_tally(cells: &[TallyCell], x: i32, y: i32) -> TallyCell {
    *cells
        .iter()
        .find(|c| c.coord.0 == x && c.coord.1 == y)
        .unwrap()
}

#[test]
fn test_test_neighbors() {
    // On a 2x2 Moore grid every cell's view has 8 entries: 3 neighbors
    // present and 5 absent.
    let nhood = MooreNhood::new();
    let mut grid: TwodimGrid<TallyCell, _> =
        TwodimGrid::new(2, 2, nhood, TickState { ticks: 0 }, 1);
    grid.update();

    for cell in grid.cells().iter() {
        assert_eq!(cell.present + cell.absent, 8);
        assert_eq!(cell.present, 3);
        assert_eq!(cell.absent, 5);
    }
}

#[test]
fn square_moore_test_neighbors() {
    // The same neighbor-view counts must hold on the partitioned path.
    let nhood = MooreNhood::new();
    let mut grid: TwodimGrid<TallyCell, _> =
        TwodimGrid::new(2, 2, nhood, TickState { ticks: 0 }, 3);
    grid.update();

    for cell in grid.cells().iter() {
        assert_eq!(cell.present + cell.absent, 8);
        assert_eq!(cell.present, 3);
        assert_eq!(cell.absent, 5);
    }
}

#[test]
fn test_edge_and_interior_neighbor_counts() {
    // On a 3x3 Moore grid: the interior cell has no absent neighbor, a
    // corner lacks five, an edge cell lacks three.
    let nhood = MooreNhood::new();
    let mut grid: TwodimGrid<TallyCell, _> =
        TwodimGrid::new(3, 3, nhood, TickState { ticks: 0 }, 1);
    grid.update();

    let interior = find_tally(grid.cells(), 1, 1);
    assert_eq!(interior.present, 8);
    assert_eq!(interior.absent, 0);

    let corner = find_tally(grid.cells(), 0, 0);
    assert_eq!(corner.present, 3);
    assert_eq!(corner.absent, 5);

    let edge = find_tally(grid.cells(), 1, 0);
    assert_eq!(edge.present, 5);
    assert_eq!(edge.absent, 3);
}

#[test]
fn test_size_and_default_cells() {
    let nhood = MooreNhood::new();
    let grid: TwodimGrid<Life, _> = TwodimGrid::new(4, 6, nhood, EmptyState, 2);
    let size = grid.size();
    assert_eq!(size.x(), 6);
    assert_eq!(size.y(), 4);
    assert_eq!(grid.cells().len(), 24);
    assert!(grid.cells().iter().all(|c| c.state == LifeState::Dead));
    // Cells sit at the coordinate their slot linearizes to.
    for (i, cell) in grid.cells().iter().enumerate() {
        assert_eq!(cell.coord.0, (i % 6) as i32);
        assert_eq!(cell.coord.1, (i / 6) as i32);
    }
}

#[test]
fn test_set_cells_last_write_wins() {
    let nhood = MooreNhood::new();
    let mut grid: TwodimGrid<Life, _> = TwodimGrid::new(3, 3, nhood, EmptyState, 1);

    let cells = vec![
        Life { state: LifeState::Alive, coord: (2, 0) },
        Life { state: LifeState::Dead, coord: (2, 0) },
        Life { state: LifeState::Alive, coord: (0, 2) },
    ];
    grid.set_cells(cells);

    // The later write for (2, 0) wins; untouched slots keep their cells.
    let alive: Vec<&Life> = grid
        .cells()
        .iter()
        .filter(|c| c.state == LifeState::Alive)
        .collect();
    assert_eq!(alive.len(), 1);
    assert_eq!(alive[0].coord, (0, 2));
}

#[test]
fn test_partitions_tile_the_grid() {
    for threads in 1..8u32 {
        let nhood = MooreNhood::new();
        let grid: TwodimGrid<Life, _> = TwodimGrid::new(3, 4, nhood, EmptyState, threads);
        let parts = grid.partitions();
        assert!(!parts.is_empty());
        assert!(parts.len() <= threads.max(1) as usize);
        assert_eq!(parts[0].0, 0);
        assert_eq!(parts[parts.len() - 1].1, 12);
        for t in 0..parts.len() {
            assert!(parts[t].0 < parts[t].1);
            if t > 0 {
                assert_eq!(parts[t].0, parts[t - 1].1);
            }
        }
    }
}

fn spinner_grid(threads: u32) -> TwodimGrid<Life, MooreNhood<GridCoord>> {
    let nhood = MooreNhood::new();
    let mut grid: TwodimGrid<Life, _> = TwodimGrid::new(3, 3, nhood, EmptyState, threads);
    grid.set_cells(vec![
        Life { state: LifeState::Alive, coord: (1, 0) },
        Life { state: LifeState::Alive, coord: (1, 1) },
        Life { state: LifeState::Alive, coord: (1, 2) },
    ]);
    grid
}

#[test]
fn test_order_independence_across_worker_counts() {
    // One generation gives the same buffer for any worker count.
    let mut reference = spinner_grid(1);
    reference.update();
    for threads in 2..6 {
        let mut grid = spinner_grid(threads);
        grid.update();
        assert_eq!(grid.cells(), reference.cells());
    }
}

#[test]
fn test_partitioned_path_matches_update() {
    // Producing every partition with update_partition and committing the
    // results equals one plain update.
    let mut reference = spinner_grid(3);
    let mut grid = spinner_grid(3);

    let parts = grid.partitions();
    let mut results = Vec::new();
    for &(start, end) in parts.iter() {
        results.push(grid.update_partition(start, end));
    }
    grid.apply_update(results);

    reference.update();
    assert_eq!(grid.cells(), reference.cells());
}

#[test]
fn test_state_advances_once_per_update() {
    // Whatever the grid size or worker count, one update advances the
    // evolution state exactly once.
    for (rows, cols, threads) in [(1u32, 1u32, 1u32), (3, 3, 1), (4, 5, 3), (2, 2, 16)] {
        let nhood = MooreNhood::new();
        let mut grid: TwodimGrid<TallyCell, _> =
            TwodimGrid::new(rows, cols, nhood, TickState { ticks: 0 }, threads);
        for expected in 1..4u64 {
            grid.update();
            assert_eq!(grid.state().ticks, expected);
        }
    }
}

#[test]
fn test_identity_preserved_by_update() {
    let mut grid = spinner_grid(2);
    let before: Vec<(i32, i32)> = grid.cells().iter().map(|c| c.coord).collect();
    grid.update();
    let after: Vec<(i32, i32)> = grid.cells().iter().map(|c| c.coord).collect();
    assert_eq!(before, after);
}

#[test]
fn test_neighbor_view_iter() {
    // The view iterator maps neighbor slots over the previous
    // generation and marks absent neighbors.
    let cells = vec![
        Life { state: LifeState::Alive, coord: (0, 0) },
        Life { state: LifeState::Dead, coord: (1, 0) },
    ];
    let neighbors = vec![Some(1usize), None, Some(0usize)];

    let mut it = Iter::new(&cells, &neighbors, 3);
    assert_eq!(it.next(), Some(Some(cells[1])));
    assert_eq!(it.next(), Some(None));
    assert_eq!(it.next(), Some(Some(cells[0])));
    assert_eq!(it.next(), None);
    assert_eq!(it.next(), None);

    let view = collect_view(&cells, &neighbors, 3);
    assert_eq!(view, vec![Some(cells[1]), None, Some(cells[0])]);
}
