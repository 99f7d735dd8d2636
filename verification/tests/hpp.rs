//! The HPP lattice gas through the whole engine: one head-on collision,
//! one rebound and one plain move on a 3x3 grid, and a particle front
//! spreading across a 5x5 grid, rebounding off the far edge and coming
//! back.

use cellular_automaton::engine::Sequential;
use cellular_automaton::grid::nhood::VonNeumannNhood;
use cellular_automaton::grid::twodim::TwodimGrid;
use cellular_automaton::hpp::Direction;
use cellular_automaton::hpp::Particles;
use cellular_automaton::hpp::Stage;
use cellular_automaton::hpp::HPP;
use cellular_automaton::hpp::HPPState;
use cellular_automaton::traits::Consumer;
use cellular_automaton::traits::Engine;
use cellular_automaton::traits::Grid;

fn find_cell(cells: &[HPP], x: i32, y: i32) -> HPP {
    assert!(cells.iter().any(|c| c.coord.0 == x && c.coord.1 == y));

    *cells
        .iter()
        .find(|c| c.coord.0 == x && c.coord.1 == y)
        .unwrap()
}

fn particles_count(cells: &[HPP], direction: &Direction) -> i32 {
    cells.iter().filter(|c| c.particles.get(direction)).count() as i32
}

#[derive(Debug)]
struct HPPRulesTestConsumer;

impl HPPRulesTestConsumer {
    pub fn new() -> Self {
        HPPRulesTestConsumer
    }

    fn test_collision<G: Grid<Cell = HPP>>(&self, grid: &G) {
        println!("Collision");

        let left_particle_count = particles_count(grid.cells(), &Direction::Left);
        assert_eq!(left_particle_count, 0);

        let right_particle_count = particles_count(grid.cells(), &Direction::Right);
        assert_eq!(right_particle_count, 2);

        let up_particles_count = particles_count(grid.cells(), &Direction::Up);
        assert_eq!(up_particles_count, 1);

        let down_particles_count = particles_count(grid.cells(), &Direction::Down);
        assert_eq!(down_particles_count, 1);

        let rebound_to_right = find_cell(grid.cells(), 0, 1);
        assert_eq!(rebound_to_right.particles.get(&Direction::Right), true);

        let head_on_up = find_cell(grid.cells(), 1, 0);
        assert_eq!(head_on_up.particles.get(&Direction::Up), true);

        let head_on_down = find_cell(grid.cells(), 1, 0);
        assert_eq!(head_on_down.particles.get(&Direction::Down), true);
    }

    fn test_transport<G: Grid<Cell = HPP>>(&self, grid: &G) {
        println!("Transport");

        let simple_move_to_right = find_cell(grid.cells(), 1, 2);
        assert_eq!(simple_move_to_right.particles.get(&Direction::Right), true);

        let move_to_right_after_rebound = find_cell(grid.cells(), 1, 2);
        assert_eq!(move_to_right_after_rebound.particles.get(&Direction::Right), true);

        let move_to_down_after_head_on = find_cell(grid.cells(), 1, 1);
        assert_eq!(move_to_down_after_head_on.particles.get(&Direction::Down), true);

        let fixed_to_up_after_head_on = find_cell(grid.cells(), 1, 0);
        assert_eq!(fixed_to_up_after_head_on.particles.get(&Direction::Up), true);
    }
}

impl Consumer for HPPRulesTestConsumer {
    type Cell = HPP;

    fn consume<G: Grid<Cell = HPP>>(&mut self, grid: &mut G) {
        assert_eq!(grid.cells().len(), 9);

        match grid.state().stage {
            Stage::Collision => self.test_transport(grid),
            Stage::Transport => self.test_collision(grid),
        }
    }
}

#[test]
fn test_rules() {
    // initial          collision        transport
    // | * |> <| * |    | * |^ v| * |    | * |  v| * |
    // |  <| * | * | => |>  | * | * | => | * |> v| * |
    // |>  | * | * |    |>  | * | * |    | * |>  | * |
    // 3x3 grid with 4 particles. There should be
    // one rebound, one head-on collision and one simple move.

    let left_particle = Particles { up: false, left: true, right: false, down: false };
    let right_particle = Particles { up: false, left: false, right: true, down: false };
    let about_to_collide = Particles { up: false, left: true, right: true, down: false };

    let cells = vec![
        HPP { particles: about_to_collide, coord: (1, 0) },
        HPP { particles: left_particle, coord: (0, 1) },
        HPP { particles: right_particle, coord: (0, 2) },
    ];

    let nhood = VonNeumannNhood::new();
    let evolution_state = HPPState::new();
    let mut grid: TwodimGrid<HPP, _> = TwodimGrid::new(3, 3, nhood, evolution_state, 1);
    grid.set_cells(cells);

    let right_particles_count = grid
        .cells()
        .iter()
        .filter(|c| c.particles.get(&Direction::Right))
        .count();
    assert_eq!(right_particles_count, 2);

    let consumer = HPPRulesTestConsumer::new();
    let mut engine = Sequential::new(grid, consumer);
    engine.run_times(2);
}

struct HPPSpreadTestConsumer {
    cur_y: i32,
    cur_direction: Direction,
}

impl HPPSpreadTestConsumer {
    pub fn new() -> Self {
        HPPSpreadTestConsumer { cur_y: 0, cur_direction: Direction::Down }
    }

    fn test_collision<G: Grid<Cell = HPP>>(&mut self, grid: &G) {
        println!("Collision");

        if self.cur_y == 0 {
            self.cur_direction = Direction::Down;
        }

        let count = particles_count(grid.cells(), &self.cur_direction);
        assert_eq!(count, 5);

        if self.cur_direction == Direction::Down {
            self.cur_y += 1;
        } else {
            self.cur_y -= 1;
        }
    }

    fn test_transport<G: Grid<Cell = HPP>>(&mut self, grid: &G) {
        println!("Transport");

        let count = particles_count(grid.cells(), &self.cur_direction);
        assert_eq!(count, 5);

        assert!(grid
            .cells()
            .iter()
            .filter(|c| c.coord.1 == self.cur_y)
            .all(|c| c.particles.get(&self.cur_direction)));

        if self.cur_y == 4 {
            self.cur_direction = Direction::Up;
        }
    }
}

impl Consumer for HPPSpreadTestConsumer {
    type Cell = HPP;

    fn consume<G: Grid<Cell = HPP>>(&mut self, grid: &mut G) {
        assert_eq!(grid.cells().len(), 25);

        match grid.state().stage {
            Stage::Collision => self.test_transport(grid),
            Stage::Transport => self.test_collision(grid),
        }
    }
}

#[test]
fn test_spread() {
    // initial          later
    // | v v v v v |    | * * * * * |
    // | * * * * * |    | v v v v v |
    // | * * * * * | => | * * * * * | => (and so on)
    // | * * * * * |    | * * * * * |
    // | * * * * * |    | * * * * * |
    // 5x5 grid with 5 particles. The particles move to the lower
    // border, rebound there, move back to the upper one and so on.

    let down_particle = Particles { up: false, left: false, right: false, down: true };

    let mut cells = Vec::new();
    for x in 0..5 {
        cells.push(HPP { particles: down_particle, coord: (x, 0) });
    }

    let nhood = VonNeumannNhood::new();
    let evolution_state = HPPState::new();
    let mut grid: TwodimGrid<HPP, _> = TwodimGrid::new(5, 5, nhood, evolution_state, 1);
    grid.set_cells(cells);

    let consumer = HPPSpreadTestConsumer::new();
    let mut engine = Sequential::new(grid, consumer);
    // 2 phases * 10 full cycles = 20 times.
    engine.run_times(20);
}

#[test]
fn test_stage_alternates() {
    // The evolution state flips phase exactly once per generation.
    let nhood = VonNeumannNhood::new();
    let mut grid: TwodimGrid<HPP, _> = TwodimGrid::new(2, 2, nhood, HPPState::new(), 1);
    assert_eq!(grid.state().stage, Stage::Collision);
    grid.update();
    assert_eq!(grid.state().stage, Stage::Transport);
    grid.update();
    assert_eq!(grid.state().stage, Stage::Collision);
}

#[test]
fn test_directions() {
    assert_eq!(Direction::Up.opposite(), Direction::Down);
    assert_eq!(Direction::Down.opposite(), Direction::Up);
    assert_eq!(Direction::Left.opposite(), Direction::Right);
    assert_eq!(Direction::Right.opposite(), Direction::Left);

    assert_eq!(Direction::Up.perpendicular(), Direction::Left);
    assert_eq!(Direction::Left.perpendicular(), Direction::Down);
    assert_eq!(Direction::Right.perpendicular(), Direction::Up);
    assert_eq!(Direction::Down.perpendicular(), Direction::Right);
}
