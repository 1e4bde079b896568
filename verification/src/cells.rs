//! The mathematical model of a grid: a sequence of columns, each a sequence
//! of particle records. `cells[x][y]` is the record at column `x`, row `y`;
//! row numbers grow downwards.

use vstd::prelude::*;
use crate::particle::Particle;

verus! {

/// The contents of a grid, column by column.
pub type Cells = Seq<Seq<Particle>>;

/// Whether `(x, y)` names a slot of `cells`.
pub open spec fn in_bounds(cells: Cells, x: int, y: int) -> bool {
    0 <= x < cells.len() && 0 <= y < cells[x].len()
}

/// Whether every column of `cells` has exactly `height` rows.
pub open spec fn rectangular(cells: Cells, height: nat) -> bool {
    forall|x: int| 0 <= x < cells.len() ==> (#[trigger] cells[x]).len() == height
}

/// `cells` with the record at `(x, y)` replaced by `particle`.
pub open spec fn put(cells: Cells, x: int, y: int, particle: Particle) -> Cells {
    cells.update(x, cells[x].update(y, particle))
}

/// Whether no id in `cells` exceeds `bound`.
pub open spec fn ids_at_most(cells: Cells, bound: int) -> bool {
    forall|x: int, y: int| in_bounds(cells, x, y) ==> (#[trigger] cells[x][y]).id <= bound
}

/// Whether no two slots of `cells` hold the same id.
pub open spec fn distinct_ids(cells: Cells) -> bool {
    forall|x1: int, y1: int, x2: int, y2: int|
        in_bounds(cells, x1, y1) && in_bounds(cells, x2, y2) && (x1 != x2 || y1 != y2)
            ==> (#[trigger] cells[x1][y1]).id != (#[trigger] cells[x2][y2]).id
}

/// Whether `after` has the shape of `before`: as many columns, each as long.
pub open spec fn same_shape(before: Cells, after: Cells) -> bool {
    &&& after.len() == before.len()
    &&& forall|x: int| 0 <= x < before.len() ==> (#[trigger] after[x]).len() == before[x].len()
}

} // verus!
