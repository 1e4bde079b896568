//! The simulation step: one pass over the grid in which every logical
//! particle is evaluated at most once.

use vstd::prelude::*;
use crate::cells::Cells;
use crate::frame::{
    after_frame,
    lemma_scan_column_reads,
    lemma_scan_grid_preserves,
    lemma_scan_grid_reads,
    opening,
    preserved,
    scan_column,
    scan_grid,
    visit,
    Frame,
};
use crate::grid::Grid;
use crate::guard::Evaluated;
use crate::motion::{apply_move, decide_move, roll_move, Draw};

verus! {

/// The draws of a frame as the scan reads them: `table(draws)[x][y]` is the
/// draw for the slot `(x, y)`.
pub open spec fn table(draws: &Vec<Vec<Draw>>) -> Seq<Seq<Draw>> {
    Seq::new(draws.len() as nat, |x: int| draws[x]@)
}

/// The draw that `draws` holds for the slot `(x, y)`; where it holds none,
/// the draw of a particle that attempts nothing.
pub open spec fn draw_at(draws: Seq<Seq<Draw>>, x: int, y: int) -> Draw {
    if 0 <= x < draws.len() && 0 <= y < draws[x].len() {
        draws[x][y]
    } else {
        Draw { offset: 0, drift: false }
    }
}

/// `draws` cut or filled up to the shape of `cells`.
pub open spec fn padded(draws: Seq<Seq<Draw>>, cells: Cells) -> Seq<Seq<Draw>> {
    Seq::new(cells.len(), |x: int| Seq::new(cells[x].len(), |y: int| draw_at(draws, x, y)))
}

/// Whether `draws` holds one draw for each slot of `cells`.
pub open spec fn covers(draws: Seq<Seq<Draw>>, cells: Cells) -> bool {
    &&& draws.len() == cells.len()
    &&& forall|x: int| 0 <= x < cells.len() ==> (#[trigger] draws[x]).len() == cells[x].len()
}

/// Whether every offset in `draws` is one that the rolls can produce.
pub open spec fn modest(draws: Seq<Seq<Draw>>) -> bool {
    forall|x: int, y: int|
        0 <= x < draws.len() && 0 <= y < draws[x].len() ==> -2 <= (
        #[trigger] draws[x][y]).offset <= 2
}

/// Visits the slot `(x, y)` with a given draw.
pub fn update_with(grid: &mut Grid, seen: &mut Evaluated, x: usize, y: usize, draw: Draw)
    requires
        old(grid).wf(),
        old(seen).wf(),
        old(grid).has(x as int, y as int),
    ensures
        final(grid).wf(),
        final(seen).wf(),
        final(grid).spec_height() == old(grid).spec_height(),
        final(grid).spec_last_id() == old(grid).spec_last_id(),
        (Frame { cells: final(grid)@, seen: final(seen)@ }) == visit(
            Frame { cells: old(grid)@, seen: old(seen)@ },
            x as int,
            y as int,
            draw,
        ),
{
    let particle = grid.get(x, y);
    if particle.active && !seen.contains(particle.id) {
        let mv = decide_move(grid, x, y, draw);
        apply_move(grid, x, y, mv);
        seen.record(particle.id);
    }
}

/// Visits the slot `(x, y)`, rolling where the rule asks for a draw, and
/// returns the draw that was used.
pub fn update(grid: &mut Grid, seen: &mut Evaluated, x: usize, y: usize) -> (draw: Draw)
    requires
        old(grid).wf(),
        old(seen).wf(),
        old(grid).has(x as int, y as int),
    ensures
        final(grid).wf(),
        final(seen).wf(),
        final(grid).spec_height() == old(grid).spec_height(),
        final(grid).spec_last_id() == old(grid).spec_last_id(),
        (Frame { cells: final(grid)@, seen: final(seen)@ }) == visit(
            Frame { cells: old(grid)@, seen: old(seen)@ },
            x as int,
            y as int,
            draw,
        ),
        -2 <= draw.offset <= 2,
{
    let particle = grid.get(x, y);
    if particle.active && !seen.contains(particle.id) {
        let (draw, mv) = roll_move(grid, x, y);
        apply_move(grid, x, y, mv);
        seen.record(particle.id);
        draw
    } else {
        Draw::still()
    }
}

/// Advances the grid by one frame with the given draws, the slot `(x, y)`
/// with `draws[x][y]`, and returns the ids of the particles evaluated, in
/// the order of their evaluation. A slot for which `draws` holds nothing
/// gets the draw of a particle that attempts nothing.
pub fn step_with(grid: &mut Grid, draws: &Vec<Vec<Draw>>) -> (evaluated: Vec<u32>)
    requires
        old(grid).wf(),
    ensures
        final(grid).wf(),
        final(grid).spec_height() == old(grid).spec_height(),
        final(grid).spec_last_id() == old(grid).spec_last_id(),
        (Frame { cells: final(grid)@, seen: evaluated@ }) == after_frame(
            old(grid)@,
            padded(table(draws), old(grid)@),
        ),
        preserved(opening(old(grid)@), Frame { cells: final(grid)@, seen: evaluated@ }),
        evaluated@.no_duplicates(),
{
    let width: usize = grid.width();
    let height: usize = grid.height();
    let mut seen = Evaluated::new();
    let ghost start = opening(grid@);
    let ghost plan = padded(table(draws), grid@);
    let mut x: usize = 0;
    while x < width
        invariant
            grid.wf(),
            seen.wf(),
            x <= width,
            width == grid.spec_width(),
            height == grid.spec_height(),
            width == old(grid).spec_width(),
            height == old(grid).spec_height(),
            grid.spec_last_id() == old(grid).spec_last_id(),
            start == opening(old(grid)@),
            old(grid).wf(),
            plan == padded(table(draws), old(grid)@),
            (Frame { cells: grid@, seen: seen@ }) == scan_grid(start, x as nat, plan),
        decreases width - x,
    {
        let ghost top = Frame { cells: grid@, seen: seen@ };
        proof {
            assert(old(grid)@[x as int].len() == height);
            assert(plan[x as int].len() == height);
        }
        let mut y: usize = 0;
        while y < height
            invariant
                grid.wf(),
                seen.wf(),
                x < width,
                y <= height,
                width == grid.spec_width(),
                height == grid.spec_height(),
                width == old(grid).spec_width(),
                grid.spec_last_id() == old(grid).spec_last_id(),
                plan == padded(table(draws), old(grid)@),
                plan[x as int].len() == height,
                (Frame { cells: grid@, seen: seen@ }) == scan_column(
                    top,
                    x as int,
                    y as nat,
                    plan[x as int],
                ),
            decreases height - y,
        {
            let draw = if x < draws.len() && y < draws[x].len() {
                draws[x][y]
            } else {
                Draw::still()
            };
            proof {
                if x < draws.len() {
                    assert(table(draws)[x as int] == draws[x as int]@);
                }
                assert(plan[x as int][y as int] == draw_at(table(draws), x as int, y as int));
            }
            update_with(grid, &mut seen, x, y, draw);
            y = y + 1;
        }
        x = x + 1;
    }
    proof {
        lemma_scan_grid_preserves(start, width as nat, plan);
    }
    seen.into_ids()
}

/// Advances the grid by one frame and returns the ids of the particles
/// evaluated, in the order of their evaluation. The frame is the one that
/// `after_frame` describes for the draws that were rolled; every offset
/// among them lies between -2 and 2.
pub fn step(grid: &mut Grid) -> (evaluated: Vec<u32>)
    requires
        old(grid).wf(),
    ensures
        final(grid).wf(),
        final(grid).spec_height() == old(grid).spec_height(),
        final(grid).spec_last_id() == old(grid).spec_last_id(),
        exists|draws: Seq<Seq<Draw>>|
            covers(draws, old(grid)@) && modest(draws) && (Frame {
                cells: final(grid)@,
                seen: evaluated@,
            }) == #[trigger] after_frame(old(grid)@, draws),
        preserved(opening(old(grid)@), Frame { cells: final(grid)@, seen: evaluated@ }),
        evaluated@.no_duplicates(),
{
    let width: usize = grid.width();
    let height: usize = grid.height();
    let mut seen = Evaluated::new();
    let ghost start = opening(grid@);
    let ghost mut draws: Seq<Seq<Draw>> = Seq::empty();
    let mut x: usize = 0;
    while x < width
        invariant
            grid.wf(),
            seen.wf(),
            x <= width,
            width == grid.spec_width(),
            height == grid.spec_height(),
            width == old(grid).spec_width(),
            height == old(grid).spec_height(),
            grid.spec_last_id() == old(grid).spec_last_id(),
            start == opening(old(grid)@),
            old(grid).wf(),
            draws.len() == x,
            forall|i: int| 0 <= i < x ==> (#[trigger] draws[i]).len() == height,
            modest(draws),
            (Frame { cells: grid@, seen: seen@ }) == scan_grid(start, x as nat, draws),
        decreases width - x,
    {
        let ghost top = Frame { cells: grid@, seen: seen@ };
        let ghost mut column: Seq<Draw> = Seq::empty();
        let mut y: usize = 0;
        while y < height
            invariant
                grid.wf(),
                seen.wf(),
                x < width,
                y <= height,
                width == grid.spec_width(),
                height == grid.spec_height(),
                grid.spec_last_id() == old(grid).spec_last_id(),
                column.len() == y,
                forall|j: int| 0 <= j < y ==> -2 <= (#[trigger] column[j]).offset <= 2,
                (Frame { cells: grid@, seen: seen@ }) == scan_column(
                    top,
                    x as int,
                    y as nat,
                    column,
                ),
            decreases height - y,
        {
            let draw = update(grid, &mut seen, x, y);
            proof {
                lemma_scan_column_reads(top, x as int, y as nat, column, column.push(draw));
                column = column.push(draw);
            }
            y = y + 1;
        }
        proof {
            lemma_scan_grid_reads(start, x as nat, draws, draws.push(column));
            draws = draws.push(column);
        }
        x = x + 1;
    }
    let evaluated = seen.into_ids();
    proof {
        lemma_scan_grid_preserves(start, width as nat, draws);
        assert(covers(draws, old(grid)@));
        assert((Frame { cells: grid@, seen: evaluated@ }) == after_frame(old(grid)@, draws));
    }
    evaluated
}

} // verus!
