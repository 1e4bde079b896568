//! One frame of the simulation as a mathematical function of the grid and
//! of the draws, and what every frame preserves.

use vstd::prelude::*;
use crate::cells::{distinct_ids, ids_at_most, in_bounds, put, same_shape, Cells};
use crate::census::{count, lemma_count_holds, lemma_count_put, Kind};
use crate::motion::{
    apply,
    decide,
    destination,
    lawful,
    left_behind,
    lemma_decide_lawful,
    Draw,
    Move,
};
use crate::particle::ParticleVariant;

verus! {

/// The state of a frame in progress: the grid, and the ids of the particles
/// evaluated so far, in the order of their evaluation.
pub struct Frame {
    pub cells: Cells,
    pub seen: Seq<u32>,
}

/// Whether the grid's dimensions fit the machine's index type.
pub open spec fn storable(cells: Cells) -> bool {
    &&& cells.len() <= usize::MAX
    &&& forall|x: int| 0 <= x < cells.len() ==> (#[trigger] cells[x]).len() <= usize::MAX
}

/// The frame after the slot `(x, y)` has been visited. An empty slot is
/// passed over, and so is a particle whose id was evaluated before. Any
/// other particle makes the move that the rule decides for `draw`, and its
/// id is recorded, whether it moved or not.
pub open spec fn visit(frame: Frame, x: int, y: int, draw: Draw) -> Frame {
    let particle = frame.cells[x][y];
    if particle.active && !frame.seen.contains(particle.id) {
        Frame {
            cells: apply(frame.cells, x, y, decide(frame.cells, x, y, draw)),
            seen: frame.seen.push(particle.id),
        }
    } else {
        frame
    }
}

/// The frame after the first `rows` slots of column `x` have been visited
/// from the top, the slot in row `y` with `draws[y]`.
pub open spec fn scan_column(frame: Frame, x: int, rows: nat, draws: Seq<Draw>) -> Frame
    decreases rows,
{
    if rows == 0 {
        frame
    } else {
        let y = rows - 1;
        visit(scan_column(frame, x, y as nat, draws), x, y, draws[y])
    }
}

/// The frame after the first `columns` columns have been visited from the
/// left, each of them whole, column `x` with `draws[x]`.
pub open spec fn scan_grid(frame: Frame, columns: nat, draws: Seq<Seq<Draw>>) -> Frame
    decreases columns,
{
    if columns == 0 {
        frame
    } else {
        let x = columns - 1;
        let earlier = scan_grid(frame, x as nat, draws);
        scan_column(earlier, x, earlier.cells[x].len(), draws[x])
    }
}

/// The state in which a frame starts: nothing is evaluated yet.
pub open spec fn opening(cells: Cells) -> Frame {
    Frame { cells, seen: Seq::empty() }
}

/// The state in which a whole frame ends: every slot has been visited once,
/// by ascending column and, within a column, by ascending row.
pub open spec fn after_frame(cells: Cells, draws: Seq<Seq<Draw>>) -> Frame {
    scan_grid(opening(cells), cells.len(), draws)
}

/// The scan of a column reads only the draws of the rows it visits.
pub proof fn lemma_scan_column_reads(
    frame: Frame,
    x: int,
    rows: nat,
    first: Seq<Draw>,
    second: Seq<Draw>,
)
    requires
        forall|y: int| 0 <= y < rows ==> first[y] == second[y],
    ensures
        scan_column(frame, x, rows, first) == scan_column(frame, x, rows, second),
    decreases rows,
{
    if rows > 0 {
        lemma_scan_column_reads(frame, x, (rows - 1) as nat, first, second);
    }
}

/// The scan of a grid reads only the draws of the columns it visits.
pub proof fn lemma_scan_grid_reads(
    frame: Frame,
    columns: nat,
    first: Seq<Seq<Draw>>,
    second: Seq<Seq<Draw>>,
)
    requires
        forall|x: int| 0 <= x < columns ==> first[x] == second[x],
    ensures
        scan_grid(frame, columns, first) == scan_grid(frame, columns, second),
    decreases columns,
{
    if columns > 0 {
        lemma_scan_grid_reads(frame, (columns - 1) as nat, first, second);
    }
}

/// Whether every recorded id is the id of an active particle of the grid.
pub open spec fn seen_are_active(frame: Frame) -> bool {
    forall|i: int|
        0 <= i < frame.seen.len() ==> count(
            frame.cells,
            Kind::ActiveWithId(#[trigger] frame.seen[i]),
        ) >= 1
}

/// What every part of a frame preserves: the grid's shape, the number of
/// records of every kind, that ids are distinct, every bound on the ids,
/// that no id is recorded twice, and that the recorded ids belong to active
/// particles.
pub open spec fn preserved(before: Frame, after: Frame) -> bool {
    &&& same_shape(before.cells, after.cells)
    &&& forall|kind: Kind| #[trigger] count(after.cells, kind) == count(before.cells, kind)
    &&& distinct_ids(before.cells) ==> distinct_ids(after.cells)
    &&& forall|bound: int|
        ids_at_most(before.cells, bound) ==> #[trigger] ids_at_most(after.cells, bound)
    &&& before.seen.no_duplicates() ==> after.seen.no_duplicates()
    &&& seen_are_active(before) ==> seen_are_active(after)
}

/// A lawful move keeps the number of records of every kind.
pub proof fn lemma_apply_conserves(cells: Cells, x: int, y: int, mv: Move, kind: Kind)
    requires
        lawful(cells, x, y, mv),
    ensures
        count(apply(cells, x, y, mv), kind) == count(cells, kind),
{
    if mv !is Stay {
        let (dx, dy) = destination(x, y, mv);
        let mover = cells[x][y];
        let target = cells[dx][dy];
        let halfway = put(cells, dx, dy, mover);
        lemma_count_put(cells, dx, dy, mover, kind);
        assert(halfway[x][y] == mover);
        lemma_count_put(halfway, x, y, left_behind(mover, target, mv), kind);
    }
}

/// A lawful move keeps the grid's shape, keeps ids distinct and raises no
/// id.
pub proof fn lemma_apply_shape_and_ids(cells: Cells, x: int, y: int, mv: Move)
    requires
        lawful(cells, x, y, mv),
    ensures
        same_shape(cells, apply(cells, x, y, mv)),
        distinct_ids(cells) ==> distinct_ids(apply(cells, x, y, mv)),
        forall|bound: int|
            ids_at_most(cells, bound) ==> #[trigger] ids_at_most(apply(cells, x, y, mv), bound),
{
    let after = apply(cells, x, y, mv);
    if mv !is Stay {
        let (dx, dy) = destination(x, y, mv);
        assert forall|a: int, b: int| in_bounds(after, a, b) implies in_bounds(cells, a, b) && (
        #[trigger] after[a][b]).id == (if a == x && b == y {
            cells[dx][dy]
        } else if a == dx && b == dy {
            cells[x][y]
        } else {
            cells[a][b]
        }).id by {}
        if distinct_ids(cells) {
            assert forall|x1: int, y1: int, x2: int, y2: int|
                in_bounds(after, x1, y1) && in_bounds(after, x2, y2) && (x1 != x2 || y1
                    != y2) implies (#[trigger] after[x1][y1]).id != (#[trigger] after[x2][y2]).id by {
                let first = if x1 == x && y1 == y {
                    cells[dx][dy]
                } else if x1 == dx && y1 == dy {
                    cells[x][y]
                } else {
                    cells[x1][y1]
                };
                let second = if x2 == x && y2 == y {
                    cells[dx][dy]
                } else if x2 == dx && y2 == dy {
                    cells[x][y]
                } else {
                    cells[x2][y2]
                };
                assert(after[x1][y1].id == first.id);
                assert(after[x2][y2].id == second.id);
            }
        }
        assert forall|bound: int| ids_at_most(cells, bound) implies #[trigger] ids_at_most(
            after,
            bound,
        ) by {
            assert forall|a: int, b: int| in_bounds(after, a, b) implies (
            #[trigger] after[a][b]).id <= bound by {
                assert(cells[dx][dy].id <= bound);
                assert(cells[x][y].id <= bound);
                assert(cells[a][b].id <= bound);
            }
        }
    }
}

/// Visiting a slot preserves what a frame preserves.
pub proof fn lemma_visit_preserves(frame: Frame, x: int, y: int, draw: Draw)
    requires
        storable(frame.cells),
        in_bounds(frame.cells, x, y),
    ensures
        preserved(frame, visit(frame, x, y, draw)),
{
    let after = visit(frame, x, y, draw);
    let mv = decide(frame.cells, x, y, draw);
    lemma_decide_lawful(frame.cells, x, y, draw);
    lemma_apply_shape_and_ids(frame.cells, x, y, mv);
    assert forall|kind: Kind| #[trigger] count(after.cells, kind) == count(frame.cells, kind) by {
        lemma_apply_conserves(frame.cells, x, y, mv, kind);
    }
    if seen_are_active(frame) {
        assert forall|i: int| 0 <= i < after.seen.len() implies count(
            after.cells,
            Kind::ActiveWithId(#[trigger] after.seen[i]),
        ) >= 1 by {
            let kind = Kind::ActiveWithId(after.seen[i]);
            assert(count(after.cells, kind) == count(frame.cells, kind));
            if i < frame.seen.len() {
                assert(after.seen[i] == frame.seen[i]);
            } else {
                lemma_count_holds(frame.cells, x, y, kind);
            }
        }
    }
}

/// What a frame preserves is preserved by one part after another.
pub proof fn lemma_preserved_chain(first: Frame, second: Frame, third: Frame)
    requires
        preserved(first, second),
        preserved(second, third),
    ensures
        preserved(first, third),
{
    assert forall|kind: Kind| #[trigger] count(third.cells, kind) == count(first.cells, kind) by {
        assert(count(second.cells, kind) == count(first.cells, kind));
    }
    assert forall|bound: int| ids_at_most(first.cells, bound) implies #[trigger] ids_at_most(
        third.cells,
        bound,
    ) by {
        assert(ids_at_most(second.cells, bound));
    }
}

/// Scanning part of a column preserves what a frame preserves.
pub proof fn lemma_scan_column_preserves(frame: Frame, x: int, rows: nat, draws: Seq<Draw>)
    requires
        storable(frame.cells),
        0 <= x < frame.cells.len(),
        rows <= frame.cells[x].len(),
    ensures
        preserved(frame, scan_column(frame, x, rows, draws)),
        storable(scan_column(frame, x, rows, draws).cells),
    decreases rows,
{
    if rows > 0 {
        let y = rows - 1;
        let earlier = scan_column(frame, x, y as nat, draws);
        lemma_scan_column_preserves(frame, x, y as nat, draws);
        lemma_visit_preserves(earlier, x, y, draws[y]);
        lemma_preserved_chain(frame, earlier, visit(earlier, x, y, draws[y]));
    }
}

/// Scanning the first columns of a grid preserves what a frame preserves.
pub proof fn lemma_scan_grid_preserves(frame: Frame, columns: nat, draws: Seq<Seq<Draw>>)
    requires
        storable(frame.cells),
        columns <= frame.cells.len(),
    ensures
        preserved(frame, scan_grid(frame, columns, draws)),
        storable(scan_grid(frame, columns, draws).cells),
    decreases columns,
{
    if columns > 0 {
        let x = columns - 1;
        let earlier = scan_grid(frame, x as nat, draws);
        lemma_scan_grid_preserves(frame, x as nat, draws);
        lemma_scan_column_preserves(earlier, x, earlier.cells[x].len(), draws[x]);
        lemma_preserved_chain(
            frame,
            earlier,
            scan_column(earlier, x, earlier.cells[x].len(), draws[x]),
        );
    }
}

/// No double update: a frame evaluates no id twice, however often a
/// particle is moved into slots that the scan has yet to reach, and every id
/// it evaluates belonged to a particle that was active when the frame began.
pub proof fn lemma_no_double_update(cells: Cells, draws: Seq<Seq<Draw>>)
    requires
        storable(cells),
    ensures
        after_frame(cells, draws).seen.no_duplicates(),
        forall|i: int|
            0 <= i < after_frame(cells, draws).seen.len() ==> count(
                cells,
                Kind::ActiveWithId(#[trigger] after_frame(cells, draws).seen[i]),
            ) >= 1,
{
    lemma_scan_grid_preserves(opening(cells), cells.len(), draws);
    let end = after_frame(cells, draws);
    assert(seen_are_active(end));
    assert forall|i: int| 0 <= i < end.seen.len() implies count(
        cells,
        Kind::ActiveWithId(#[trigger] end.seen[i]),
    ) >= 1 by {
        assert(count(end.cells, Kind::ActiveWithId(end.seen[i])) == count(
            cells,
            Kind::ActiveWithId(end.seen[i]),
        ));
    }
}

/// Conservation: a frame neither creates nor destroys material. The number
/// of active particles, of active particles of each material and of records
/// with each id is the same after the frame as before it, the grid keeps its
/// shape, and ids that were distinct stay distinct.
pub proof fn lemma_frame_conserves(cells: Cells, draws: Seq<Seq<Draw>>, kind: Kind)
    requires
        storable(cells),
    ensures
        count(after_frame(cells, draws).cells, kind) == count(cells, kind),
        same_shape(cells, after_frame(cells, draws).cells),
        distinct_ids(cells) ==> distinct_ids(after_frame(cells, draws).cells),
{
    lemma_scan_grid_preserves(opening(cells), cells.len(), draws);
}

/// Gravity precedence: an active particle of a physical material above an
/// empty slot falls into that slot when it is evaluated, whatever the draw.
/// The slot below then holds the particle's record, the slot it left is
/// empty, and its id is recorded.
pub proof fn lemma_gravity_precedence(frame: Frame, x: int, y: int, draw: Draw)
    requires
        in_bounds(frame.cells, x, y),
        frame.cells[x][y].active,
        frame.cells[x][y].variant.physical(),
        !frame.seen.contains(frame.cells[x][y].id),
        in_bounds(frame.cells, x, y + 1),
        !frame.cells[x][y + 1].active,
    ensures
        decide(frame.cells, x, y, draw) == Move::Fall,
        visit(frame, x, y, draw).cells[x][y + 1] == frame.cells[x][y],
        !visit(frame, x, y, draw).cells[x][y].active,
        visit(frame, x, y, draw).seen == frame.seen.push(frame.cells[x][y].id),
{
}

/// Water conservation: when a particle sinks into water, the slot it leaves
/// holds water, the water's slot holds the particle, and the grid holds as
/// many active water particles, and as many active particles in all, as
/// before.
pub proof fn lemma_sink_conserves_water(cells: Cells, x: int, y: int, mv: Move)
    requires
        lawful(cells, x, y, mv),
        mv is Sink,
    ensures
        ({
            let after = apply(cells, x, y, mv);
            let (dx, dy) = destination(x, y, mv);
            &&& after[x][y] == cells[dx][dy]
            &&& after[x][y].active
            &&& after[x][y].variant == ParticleVariant::Water
            &&& after[dx][dy] == cells[x][y]
            &&& count(after, Kind::ActiveOf(ParticleVariant::Water)) == count(
                cells,
                Kind::ActiveOf(ParticleVariant::Water),
            )
            &&& count(after, Kind::Active) == count(cells, Kind::Active)
        }),
{
    lemma_apply_conserves(cells, x, y, mv, Kind::ActiveOf(ParticleVariant::Water));
    lemma_apply_conserves(cells, x, y, mv, Kind::Active);
}

} // verus!
