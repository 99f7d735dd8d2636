//! The HPP lattice-gas model, as a cell rule for the grid engine.
//! Assumes the Von Neumann neighborhood: each generation alternates a
//! collision phase and a transport phase, driven by the evolution state.

use vstd::prelude::*;

use crate::traits::Cell;
use crate::traits::Coord;
use crate::traits::EvolutionState;

verus! {

/// The two phases the lattice gas alternates between.
#[derive(Clone, Copy, Debug, PartialEq, Eq, Structural)]
pub enum Stage {
    /// Particles collide head-on or rebound off the grid edge.
    Collision,
    /// Particles move into the cell they were heading for.
    Transport,
}

/// Global state of an HPP run: the phase the next generation applies.
#[derive(Clone, Copy, Debug, PartialEq, Eq, Structural)]
pub struct HPPState {
    /// Phase of the next generation.
    pub stage: Stage,
}

impl HPPState {
    /// A fresh run starts with a collision phase.
    pub fn new() -> (r: Self)
        ensures
            r.stage == Stage::Collision,
    {
        HPPState { stage: Stage::Collision }
    }
}

impl EvolutionState for HPPState {
    open spec fn spec_update(self) -> Self {
        HPPState {
            stage: match self.stage {
                Stage::Collision => Stage::Transport,
                Stage::Transport => Stage::Collision,
            },
        }
    }

    fn update(&mut self) {
        self.stage = match self.stage {
            Stage::Collision => Stage::Transport,
            Stage::Transport => Stage::Collision,
        };
    }
}

/// The four directions a particle can travel, in the order the Von
/// Neumann neighbor view hands the neighbors out: up (north), left
/// (west), right (east), down (south).
#[derive(Clone, Copy, Debug, PartialEq, Eq, Structural)]
pub enum Direction {
    /// Toward smaller `y`.
    Up,
    /// Toward smaller `x`.
    Left,
    /// Toward larger `x`.
    Right,
    /// Toward larger `y`.
    Down,
}

impl Direction {
    /// The direction opposite to this one.
    pub open spec fn spec_opposite(self) -> Direction {
        match self {
            Direction::Up => Direction::Down,
            Direction::Left => Direction::Right,
            Direction::Right => Direction::Left,
            Direction::Down => Direction::Up,
        }
    }

    /// The direction opposite to this one.
    pub fn opposite(&self) -> (r: Direction)
        ensures
            r == self.spec_opposite(),
    {
        match *self {
            Direction::Up => Direction::Down,
            Direction::Left => Direction::Right,
            Direction::Right => Direction::Left,
            Direction::Down => Direction::Up,
        }
    }

    /// A direction perpendicular to this one; head-on pairs scatter
    /// onto it.
    pub open spec fn spec_perpendicular(self) -> Direction {
        match self {
            Direction::Up => Direction::Left,
            Direction::Left => Direction::Down,
            Direction::Right => Direction::Up,
            Direction::Down => Direction::Right,
        }
    }

    /// A direction perpendicular to this one; head-on pairs scatter
    /// onto it.
    pub fn perpendicular(&self) -> (r: Direction)
        ensures
            r == self.spec_perpendicular(),
    {
        match *self {
            Direction::Up => Direction::Left,
            Direction::Left => Direction::Down,
            Direction::Right => Direction::Up,
            Direction::Down => Direction::Right,
        }
    }
}

/// The direction the lattice gas pairs with neighbor slot `k` of the
/// Von Neumann view: up, left, right, down.
pub open spec fn spec_direction(k: int) -> Direction {
    if k == 0 {
        Direction::Up
    } else if k == 1 {
        Direction::Left
    } else if k == 2 {
        Direction::Right
    } else {
        Direction::Down
    }
}

/// The direction paired with Von Neumann neighbor slot `k`.
pub fn direction_at(k: usize) -> (r: Direction)
    ensures
        r == spec_direction(k as int),
{
    match k {
        0 => Direction::Up,
        1 => Direction::Left,
        2 => Direction::Right,
        _ => Direction::Down,
    }
}

/// Which of the four travel directions hold a particle.
#[derive(Clone, Copy, Debug, PartialEq, Eq, Structural)]
pub struct Particles {
    /// A particle moving up.
    pub up: bool,
    /// A particle moving left.
    pub left: bool,
    /// A particle moving right.
    pub right: bool,
    /// A particle moving down.
    pub down: bool,
}

impl Particles {
    /// No particles at all.
    pub open spec fn spec_empty() -> Particles {
        Particles { up: false, left: false, right: false, down: false }
    }

    /// No particles at all.
    pub fn empty() -> (r: Particles)
        ensures
            r == Self::spec_empty(),
    {
        Particles { up: false, left: false, right: false, down: false }
    }

    /// Whether a particle travels in the given direction.
    pub open spec fn spec_get(self, direction: Direction) -> bool {
        match direction {
            Direction::Up => self.up,
            Direction::Left => self.left,
            Direction::Right => self.right,
            Direction::Down => self.down,
        }
    }

    /// The particles with the given direction's slot set to `present`.
    pub open spec fn spec_set(self, direction: Direction, present: bool) -> Particles {
        match direction {
            Direction::Up => Particles { up: present, ..self },
            Direction::Left => Particles { left: present, ..self },
            Direction::Right => Particles { right: present, ..self },
            Direction::Down => Particles { down: present, ..self },
        }
    }

    /// Whether a particle travels in the given direction.
    pub fn get(&self, direction: &Direction) -> (r: bool)
        ensures
            r == self.spec_get(*direction),
    {
        match *direction {
            Direction::Up => self.up,
            Direction::Left => self.left,
            Direction::Right => self.right,
            Direction::Down => self.down,
        }
    }

    /// Sets whether a particle travels in the given direction.
    pub fn set(&mut self, direction: &Direction, present: bool)
        ensures
            *final(self) == old(self).spec_set(*direction, present),
    {
        match *direction {
            Direction::Up => self.up = present,
            Direction::Left => self.left = present,
            Direction::Right => self.right = present,
            Direction::Down => self.down = present,
        }
    }
}

/// One HPP cell: up to four particles, one per travel direction, at a
/// coordinate.
#[derive(Clone, Copy, Debug)]
pub struct HPP {
    /// The particles in the cell.
    pub particles: Particles,
    /// The cell's coordinate.
    pub coord: (i32, i32),
}

impl PartialEq for HPP {
    fn eq(&self, other: &HPP) -> (r: bool) {
        self.particles == other.particles && self.coord.0 == other.coord.0 && self.coord.1
            == other.coord.1
    }
}

impl vstd::std_specs::cmp::PartialEqSpecImpl for HPP {
    open spec fn obeys_eq_spec() -> bool {
        true
    }

    open spec fn eq_spec(&self, other: &HPP) -> bool {
        self.particles == other.particles && self.coord == other.coord
    }
}

/// Head-on pair along `d`: particles travel both `d` and its opposite,
/// and none travel on the perpendicular axis.
pub open spec fn spec_head_on(op: Particles, d: Direction) -> bool {
    let o = d.spec_opposite();
    op.spec_get(d) && op.spec_get(o) && !op.spec_get(d.spec_perpendicular()) && !op.spec_get(
        o.spec_perpendicular(),
    )
}

/// One direction's contribution to the collision phase: a head-on pair
/// scatters onto the perpendicular axis; otherwise, with a neighbor
/// present, the particle keeps its direction, and at the grid edge it
/// rebounds to the opposite direction.
pub open spec fn spec_collision_step(
    op: Particles,
    acc: Particles,
    d: Direction,
    present: bool,
) -> Particles {
    let o = d.spec_opposite();
    if spec_head_on(op, d) {
        acc.spec_set(d.spec_perpendicular(), true).spec_set(o.spec_perpendicular(), true)
    } else if present {
        acc.spec_set(d, acc.spec_get(d) || op.spec_get(d))
    } else {
        if op.spec_get(d) {
            acc.spec_set(o, true)
        } else {
            acc
        }
    }
}

/// The collision-phase particles after the first `k` directions.
pub open spec fn spec_collision_upto(op: Particles, ns: Seq<Option<HPP>>, k: int) -> Particles
    decreases k,
{
    if k <= 0 {
        Particles::spec_empty()
    } else {
        spec_collision_step(
            op,
            spec_collision_upto(op, ns, k - 1),
            spec_direction(k - 1),
            ns[k - 1] is Some,
        )
    }
}

/// One direction's contribution to the transport phase: a neighbor's
/// particle heading this way moves in; at the grid edge the cell's own
/// outbound particle stays put.
pub open spec fn spec_transport_step(
    op: Particles,
    acc: Particles,
    d: Direction,
    nb: Option<HPP>,
) -> Particles {
    let o = d.spec_opposite();
    match nb {
        Some(n) => {
            if n.particles.spec_get(o) {
                acc.spec_set(o, true)
            } else {
                acc
            }
        },
        None => {
            if op.spec_get(d) {
                acc.spec_set(d, true)
            } else {
                acc
            }
        },
    }
}

/// The transport-phase particles after the first `k` directions.
pub open spec fn spec_transport_upto(op: Particles, ns: Seq<Option<HPP>>, k: int) -> Particles
    decreases k,
{
    if k <= 0 {
        Particles::spec_empty()
    } else {
        spec_transport_step(
            op,
            spec_transport_upto(op, ns, k - 1),
            spec_direction(k - 1),
            ns[k - 1],
        )
    }
}

/// How many directions a phase walks: one per neighbor-view entry, at
/// most four.
pub open spec fn spec_steps(ns: Seq<Option<HPP>>) -> int {
    if ns.len() < 4 {
        ns.len() as int
    } else {
        4
    }
}

impl HPP {
    /// Whether the cell holds a head-on pair along the given direction.
    pub fn has_head_on(&self, direction: &Direction) -> (r: bool)
        ensures
            r == spec_head_on(self.particles, *direction),
    {
        let opposite = direction.opposite();
        self.particles.get(direction) && self.particles.get(&opposite) && !self.particles.get(
            &direction.perpendicular(),
        ) && !self.particles.get(&opposite.perpendicular())
    }

    /// The collision phase: head-on pairs scatter, edge particles
    /// rebound, everything else keeps its direction.
    pub fn collision(&mut self, old_cell: &HPP, neighbors: &Vec<Option<HPP>>)
        ensures
            final(self).particles == spec_collision_upto(
                old_cell.particles,
                neighbors@,
                spec_steps(neighbors@),
            ),
            final(self).coord == old_cell.coord,
    {
        let mut new = Particles::empty();
        let m: usize = if neighbors.len() < 4 {
            neighbors.len()
        } else {
            4
        };
        let mut k: usize = 0;
        while k < m
            invariant
                m as int == spec_steps(neighbors@),
                m <= neighbors@.len(),
                k <= m,
                new == spec_collision_upto(old_cell.particles, neighbors@, k as int),
            decreases m - k,
        {
            let direction = direction_at(k);
            let neighbor = neighbors[k];
            let opposite = direction.opposite();
            let head_on = old_cell.has_head_on(&direction);
            match neighbor {
                Some(_) => {
                    if head_on {
                        new.set(&direction.perpendicular(), true);
                        new.set(&opposite.perpendicular(), true);
                    } else {
                        let present = new.get(&direction) || old_cell.particles.get(&direction);
                        new.set(&direction, present);
                    }
                },
                // Rebound
                None => {
                    if head_on {
                        new.set(&direction.perpendicular(), true);
                        new.set(&opposite.perpendicular(), true);
                    } else {
                        if old_cell.particles.get(&direction) {
                            new.set(&opposite, true);
                        }
                    }
                },
            }
            k += 1;
        }
        self.particles = new;
        self.coord = old_cell.coord;
    }

    /// The transport phase: particles cross into the cell they were
    /// heading for; at the grid edge they stay put.
    pub fn transport(&mut self, old_cell: &HPP, neighbors: &Vec<Option<HPP>>)
        ensures
            final(self).particles == spec_transport_upto(
                old_cell.particles,
                neighbors@,
                spec_steps(neighbors@),
            ),
            final(self).coord == old_cell.coord,
    {
        let mut new = Particles::empty();
        let m: usize = if neighbors.len() < 4 {
            neighbors.len()
        } else {
            4
        };
        let mut k: usize = 0;
        while k < m
            invariant
                m as int == spec_steps(neighbors@),
                m <= neighbors@.len(),
                k <= m,
                new == spec_transport_upto(old_cell.particles, neighbors@, k as int),
            decreases m - k,
        {
            let direction = direction_at(k);
            let neighbor = neighbors[k];
            match neighbor {
                Some(n) => {
                    let opposite = direction.opposite();
                    if n.particles.get(&opposite) {
                        new.set(&opposite, true);
                    }
                },
                None => {
                    if old_cell.particles.get(&direction) {
                        new.set(&direction, true);
                    }
                },
            }
            k += 1;
        }
        self.particles = new;
        self.coord = old_cell.coord;
    }
}

impl Cell for HPP {
    type Coord = (i32, i32);

    type State = HPPState;

    open spec fn spec_coord(&self) -> (int, int) {
        (self.coord.0 as int, self.coord.1 as int)
    }

    open spec fn spec_with_coord(x: int, y: int) -> HPP {
        HPP { particles: Particles::spec_empty(), coord: (x as i32, y as i32) }
    }

    open spec fn spec_set_coord(self, x: int, y: int) -> HPP {
        HPP { particles: self.particles, coord: (x as i32, y as i32) }
    }

    open spec fn spec_update(self, neighbors: Seq<Option<HPP>>, state: HPPState) -> HPP {
        let m = spec_steps(neighbors);
        HPP {
            particles: match state.stage {
                Stage::Collision => spec_collision_upto(self.particles, neighbors, m),
                Stage::Transport => spec_transport_upto(self.particles, neighbors, m),
            },
            coord: self.coord,
        }
    }

    proof fn lemma_with_coord_pins_coord(x: int, y: int) {
    }

    proof fn lemma_set_coord_pins_coord(self, x: int, y: int) {
    }

    fn update(&mut self, old_cell: &Self, neighbors: &Vec<Option<HPP>>, state: &HPPState) {
        match state.stage {
            Stage::Collision => self.collision(old_cell, neighbors),
            Stage::Transport => self.transport(old_cell, neighbors),
        }
    }

    fn with_coord<C: Coord>(coord: C) -> Self {
        HPP { particles: Particles::empty(), coord: (coord.x(), coord.y()) }
    }

    fn coord(&self) -> (r: &(i32, i32)) {
        &self.coord
    }

    fn set_coord<C: Coord>(&mut self, coord: &C) {
        self.coord = (coord.x(), coord.y());
    }
}

} // verus!
