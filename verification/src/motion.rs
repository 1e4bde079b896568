//! The movement rule for one particle: what it decides and what a move does
//! to the grid.

use vstd::prelude::*;
use crate::cells::{in_bounds, put, Cells};
use crate::chance::try_generate_drift;
use crate::grid::Grid;
use crate::particle::{Particle, ParticleVariant};

verus! {

/// The chance outcomes that the sideways rule consumes for one particle.
#[derive(Clone, Copy, Debug, PartialEq, Eq, Structural)]
pub struct Draw {
    /// The signed column offset that the particle attempts; zero when its
    /// movement chance failed.
    pub offset: i32,
    /// Whether the candidate slot may lie one row further down.
    pub drift: bool,
}

/// What a particle does in a frame.
#[derive(Clone, Copy, Debug, PartialEq, Eq, Structural)]
pub enum Move {
    /// The particle keeps its slot.
    Stay,
    /// The particle drops into the empty slot below it.
    Fall,
    /// The particle moves into the empty slot of column `x` in its own row.
    Slide { x: usize },
    /// The particle trades places with the water at `(x, y)`.
    Sink { x: usize, y: usize },
}

/// Whether the slot below `(x, y)` exists and is empty.
pub open spec fn can_fall(cells: Cells, x: int, y: int) -> bool {
    in_bounds(cells, x, y + 1) && !cells[x][y + 1].active
}

/// Whether `mover` is denser than `target`: the target is water and the
/// mover is not.
pub open spec fn sinks_into(mover: Particle, target: Particle) -> bool {
    target.active && target.variant == ParticleVariant::Water && mover.variant
        != ParticleVariant::Water
}

/// The sideways rule, for a particle at `(x, y)` that cannot fall. The
/// candidate column is `x + draw.offset`; the candidate row is the row below
/// when `draw.drift` allows it and that row exists. Water in the candidate
/// slot is displaced by a denser mover. Otherwise the particle moves within
/// its own row, and only into an empty slot.
pub open spec fn lateral(cells: Cells, x: int, y: int, draw: Draw) -> Move {
    let nx = x + draw.offset;
    if !in_bounds(cells, nx, y) {
        Move::Stay
    } else {
        let ny = if draw.drift && in_bounds(cells, nx, y + 1) {
            y + 1
        } else {
            y
        };
        if sinks_into(cells[x][y], cells[nx][ny]) {
            Move::Sink { x: nx as usize, y: ny as usize }
        } else if !cells[nx][y].active {
            Move::Slide { x: nx as usize }
        } else {
            Move::Stay
        }
    }
}

/// The move of the particle at `(x, y)`. Empty slots and brick stay; a
/// particle above an empty slot falls, whatever the draw; any other particle
/// follows the sideways rule.
pub open spec fn decide(cells: Cells, x: int, y: int, draw: Draw) -> Move {
    let particle = cells[x][y];
    if !particle.active || !particle.variant.physical() {
        Move::Stay
    } else if can_fall(cells, x, y) {
        Move::Fall
    } else {
        lateral(cells, x, y, draw)
    }
}

/// The slot that `mv` takes the particle at `(x, y)` to.
pub open spec fn destination(x: int, y: int, mv: Move) -> (int, int) {
    match mv {
        Move::Stay => (x, y),
        Move::Fall => (x, y + 1),
        Move::Slide { x: nx } => (nx as int, y),
        Move::Sink { x: nx, y: ny } => (nx as int, ny as int),
    }
}

/// The record that a move leaves in the slot it started from. The slot takes
/// over the id of the destination's old record. After a sink it holds water;
/// after any other move it is empty.
pub open spec fn left_behind(mover: Particle, target: Particle, mv: Move) -> Particle {
    if mv is Sink {
        Particle { id: target.id, variant: ParticleVariant::Water, active: true }
    } else {
        Particle { id: target.id, variant: mover.variant, active: false }
    }
}

/// The grid after the particle at `(x, y)` has made the move `mv`: the
/// destination holds the mover's record, the source holds what is left
/// behind.
pub open spec fn apply(cells: Cells, x: int, y: int, mv: Move) -> Cells {
    if mv is Stay {
        cells
    } else {
        let (dx, dy) = destination(x, y, mv);
        let mover = cells[x][y];
        let target = cells[dx][dy];
        put(put(cells, dx, dy, mover), x, y, left_behind(mover, target, mv))
    }
}

/// Whether `mv` is a move that the rule can produce for the particle at
/// `(x, y)`: the mover is active, the destination is another slot of the
/// grid, and it is empty, or for a sink, water under a denser mover.
pub open spec fn lawful(cells: Cells, x: int, y: int, mv: Move) -> bool {
    let (dx, dy) = destination(x, y, mv);
    &&& in_bounds(cells, x, y)
    &&& mv !is Stay ==> {
        &&& cells[x][y].active
        &&& in_bounds(cells, dx, dy)
        &&& (dx != x || dy != y)
        &&& if mv is Sink {
            sinks_into(cells[x][y], cells[dx][dy])
        } else {
            !cells[dx][dy].active
        }
    }
}

/// Every move that the rule decides is lawful.
pub proof fn lemma_decide_lawful(cells: Cells, x: int, y: int, draw: Draw)
    requires
        in_bounds(cells, x, y),
        cells.len() <= usize::MAX,
        cells[x].len() <= usize::MAX,
    ensures
        lawful(cells, x, y, decide(cells, x, y, draw)),
{
}

impl Draw {
    /// The draw of a particle that attempts nothing.
    pub fn still() -> (draw: Draw)
        ensures
            draw == (Draw { offset: 0, drift: false }),
    {
        Draw { offset: 0, drift: false }
    }
}

/// Tells whether the slot below `(x, y)` exists and is empty.
pub fn below_free(grid: &Grid, x: usize, y: usize) -> (free: bool)
    requires
        grid.wf(),
        grid.has(x as int, y as int),
    ensures
        free == can_fall(grid@, x as int, y as int),
{
    y < grid.height() - 1 && !grid.get(x, y + 1).active
}

/// The column `offset` places away from `x`, if the grid has it.
fn shifted_column(grid: &Grid, x: usize, offset: i32) -> (column: Option<usize>)
    requires
        grid.wf(),
    ensures
        column == if 0 <= x + offset < grid.spec_width() {
            Some((x + offset) as usize)
        } else {
            None
        },
{
    let target: i128 = x as i128 + offset as i128;
    if 0 <= target && target < grid.width() as i128 {
        Some(target as usize)
    } else {
        None
    }
}

/// The sideways rule once the candidate column `nx` is known to exist.
fn settle(grid: &Grid, x: usize, y: usize, nx: usize, drift: bool) -> (mv: Move)
    requires
        grid.wf(),
        grid.has(x as int, y as int),
        nx < grid.spec_width(),
    ensures
        forall|draw: Draw|
            draw.drift == drift && x + draw.offset == nx ==> mv == #[trigger] lateral(
                grid@,
                x as int,
                y as int,
                draw,
            ),
{
    let ny: usize = if drift && y < grid.height() - 1 {
        y + 1
    } else {
        y
    };
    let mover = grid.get(x, y);
    let target = grid.get(nx, ny);
    let denser = target.active && target.variant == ParticleVariant::Water && mover.variant
        != ParticleVariant::Water;
    if denser {
        Move::Sink { x: nx, y: ny }
    } else if !grid.get(nx, y).active {
        Move::Slide { x: nx }
    } else {
        Move::Stay
    }
}

/// Decides the move of the particle at `(x, y)` for the given draw.
pub fn decide_move(grid: &Grid, x: usize, y: usize, draw: Draw) -> (mv: Move)
    requires
        grid.wf(),
        grid.has(x as int, y as int),
    ensures
        mv == decide(grid@, x as int, y as int, draw),
        lawful(grid@, x as int, y as int, mv),
{
    proof {
        lemma_decide_lawful(grid@, x as int, y as int, draw);
    }
    let particle = grid.get(x, y);
    if !particle.active || !particle.variant.is_physical() {
        Move::Stay
    } else if below_free(grid, x, y) {
        Move::Fall
    } else {
        match shifted_column(grid, x, draw.offset) {
            Some(nx) => settle(grid, x, y, nx, draw.drift),
            None => Move::Stay,
        }
    }
}

/// Decides the move of the particle at `(x, y)`, rolling for the sideways
/// rule where it applies, and returns the draw beside the move. A particle
/// that stays for want of a rule, or falls, rolls nothing; a candidate
/// column outside the grid ends the rolling.
pub fn roll_move(grid: &Grid, x: usize, y: usize) -> (rolled: (Draw, Move))
    requires
        grid.wf(),
        grid.has(x as int, y as int),
    ensures
        rolled.1 == decide(grid@, x as int, y as int, rolled.0),
        lawful(grid@, x as int, y as int, rolled.1),
        -2 <= rolled.0.offset <= 2,
{
    let particle = grid.get(x, y);
    let rolled = if !particle.active || !particle.variant.is_physical() {
        (Draw::still(), Move::Stay)
    } else if below_free(grid, x, y) {
        (Draw::still(), Move::Fall)
    } else {
        let offset: i32 = particle.try_generate_movement();
        match shifted_column(grid, x, offset) {
            Some(nx) => {
                let drift = try_generate_drift();
                (Draw { offset, drift }, settle(grid, x, y, nx, drift))
            },
            None => (Draw { offset, drift: false }, Move::Stay),
        }
    };
    proof {
        lemma_decide_lawful(grid@, x as int, y as int, rolled.0);
    }
    rolled
}

/// Carries out `mv` for the particle at `(x, y)`.
pub fn apply_move(grid: &mut Grid, x: usize, y: usize, mv: Move)
    requires
        old(grid).wf(),
        old(grid).has(x as int, y as int),
        old(grid).has(destination(x as int, y as int, mv).0, destination(x as int, y as int, mv).1),
    ensures
        final(grid).wf(),
        final(grid)@ == apply(old(grid)@, x as int, y as int, mv),
        final(grid).spec_height() == old(grid).spec_height(),
        final(grid).spec_last_id() == old(grid).spec_last_id(),
{
    let mover = grid.get(x, y);
    match mv {
        Move::Stay => {},
        Move::Fall => {
            let target = grid.get(x, y + 1);
            grid.set(x, y + 1, mover);
            grid.set(x, y, Particle::new(target.id, mover.variant, false));
        },
        Move::Slide { x: nx } => {
            let target = grid.get(nx, y);
            grid.set(nx, y, mover);
            grid.set(x, y, Particle::new(target.id, mover.variant, false));
        },
        Move::Sink { x: nx, y: ny } => {
            let target = grid.get(nx, ny);
            grid.set(nx, ny, mover);
            grid.set(x, y, Particle::new(target.id, ParticleVariant::Water, true));
        },
    }
}

} // verus!
