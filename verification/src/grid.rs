//! The grid: dense storage for one particle record per slot.

use vstd::prelude::*;
use crate::cells::{distinct_ids, ids_at_most, in_bounds, put, rectangular, Cells};
use crate::particle::{Particle, ParticleVariant};

verus! {

/// A rectangular field of particle records that grows on demand and never
/// shrinks. It hands out the ids of the records it creates.
pub struct Grid {
    columns: Vec<Vec<Particle>>,
    height: usize,
    last_id: u32,
}

impl View for Grid {
    type V = Cells;

    /// The records, column by column.
    closed spec fn view(&self) -> Cells {
        Seq::new(self.columns.len() as nat, |x: int| self.columns[x]@)
    }
}

/// The larger of two numbers.
pub open spec fn larger(a: nat, b: nat) -> nat {
    if a >= b {
        a
    } else {
        b
    }
}

/// The record that a new slot starts with: empty, sand by name, under a
/// fresh id.
pub open spec fn placeholder(id: u32) -> Particle {
    Particle { id, variant: ParticleVariant::Sand, active: false }
}

/// Lengthens `column` to `rows` records, the new ones placeholders with the
/// ids that follow `last_id`, and returns the last id used.
fn extend_column(column: &mut Vec<Particle>, rows: usize, last_id: u32) -> (used: u32)
    requires
        old(column).len() <= rows,
        last_id + (rows - old(column).len()) <= u32::MAX,
    ensures
        final(column).len() == rows,
        used == last_id + (rows - old(column).len()),
        forall|y: int| 0 <= y < old(column).len() ==> final(column)[y] == old(column)[y],
        forall|y: int|
            old(column).len() <= y < rows ==> #[trigger] final(column)[y] == placeholder(
                (last_id + (y - old(column).len()) + 1) as u32,
            ),
{
    let mut id: u32 = last_id;
    while column.len() < rows
        invariant
            old(column).len() <= column.len() <= rows,
            id == last_id + (column.len() - old(column).len()),
            last_id + (rows - old(column).len()) <= u32::MAX,
            forall|y: int| 0 <= y < old(column).len() ==> column[y] == old(column)[y],
            forall|y: int|
                old(column).len() <= y < column.len() ==> #[trigger] column[y] == placeholder(
                    (last_id + (y - old(column).len()) + 1) as u32,
                ),
        decreases rows - column.len(),
    {
        id = id + 1;
        column.push(Particle::new(id, ParticleVariant::Sand, false));
    }
    id
}

impl Grid {
    /// The number of slots that `ensure_size(width, height)` adds.
    pub open spec fn growth(&self, width: nat, height: nat) -> int {
        larger(self.spec_width(), width) * larger(self.spec_height(), height) - self.spec_width()
            * self.spec_height()
    }

    /// The number of new slots that get their id before the new slot
    /// `(x, y)` does when the grid grows to `rows` rows. The new slots are
    /// served column by column from the left, each column from the top.
    pub open spec fn served_before(&self, rows: nat, x: int, y: int) -> int {
        let taller = rows - self.spec_height();
        if x < self.spec_width() {
            x * taller + (y - self.spec_height())
        } else {
            self.spec_width() * taller + (x - self.spec_width()) * rows + y
        }
    }

    /// The records after `ensure_size(width, height)`: the old ones where
    /// they were, and in every new slot a placeholder under the next id in
    /// the order in which the new slots are served.
    pub open spec fn grown(&self, width: nat, height: nat) -> Cells {
        let rows = larger(self.spec_height(), height);
        Seq::new(
            larger(self.spec_width(), width),
            |x: int|
                Seq::new(
                    rows,
                    |y: int|
                        if self.has(x, y) {
                            self@[x][y]
                        } else {
                            placeholder(
                                (self.spec_last_id() + self.served_before(rows, x, y) + 1) as u32,
                            )
                        },
                ),
        )
    }

    /// Whether `(x, y)` names a slot that `ensure_size` has added to
    /// `before`.
    pub open spec fn added(&self, before: &Grid, x: int, y: int) -> bool {
        self.has(x, y) && !before.has(x, y)
    }

    /// The number of columns.
    pub open spec fn spec_width(&self) -> nat {
        self@.len()
    }

    /// The number of rows.
    pub closed spec fn spec_height(&self) -> nat {
        self.height as nat
    }

    /// The last id that the grid has handed out.
    pub closed spec fn spec_last_id(&self) -> nat {
        self.last_id as nat
    }

    /// The grid's invariant: every column has `spec_height()` rows, no record
    /// carries an id above `spec_last_id()`, and at least one id was handed
    /// out per slot.
    pub open spec fn wf(&self) -> bool {
        &&& rectangular(self@, self.spec_height())
        &&& ids_at_most(self@, self.spec_last_id() as int)
        &&& self.spec_width() * self.spec_height() <= self.spec_last_id()
        &&& self.spec_width() <= usize::MAX
        &&& self.spec_height() <= usize::MAX
        &&& self.spec_last_id() <= u32::MAX
    }

    /// Whether `(x, y)` names a slot of this grid.
    pub open spec fn has(&self, x: int, y: int) -> bool {
        0 <= x < self.spec_width() && 0 <= y < self.spec_height()
    }

    /// A grid without slots.
    pub fn new() -> (grid: Grid)
        ensures
            grid.wf(),
            grid.spec_width() == 0,
            grid.spec_height() == 0,
            grid.spec_last_id() == 0,
    {
        Grid { columns: Vec::new(), height: 0, last_id: 0 }
    }

    /// The number of columns.
    pub fn width(&self) -> (width: usize)
        ensures
            width == self.spec_width(),
    {
        self.columns.len()
    }

    /// The number of rows.
    pub fn height(&self) -> (height: usize)
        ensures
            height == self.spec_height(),
    {
        self.height
    }

    /// The last id that the grid has handed out.
    pub fn last_id(&self) -> (id: u32)
        ensures
            id == self.spec_last_id(),
    {
        self.last_id
    }

    /// Tells whether `(x, y)` names a slot.
    pub fn in_bounds(&self, x: usize, y: usize) -> (inside: bool)
        ensures
            inside == self.has(x as int, y as int),
    {
        x < self.columns.len() && y < self.height
    }

    /// The record at `(x, y)`.
    pub fn get(&self, x: usize, y: usize) -> (particle: Particle)
        requires
            self.wf(),
            self.has(x as int, y as int),
        ensures
            particle == self@[x as int][y as int],
    {
        self.columns[x][y]
    }

    /// The material to draw at `(x, y)`, or `None` for an empty slot.
    pub fn material_at(&self, x: usize, y: usize) -> (material: Option<ParticleVariant>)
        requires
            self.wf(),
            self.has(x as int, y as int),
        ensures
            material == if self@[x as int][y as int].active {
                Some(self@[x as int][y as int].variant)
            } else {
                None
            },
    {
        let particle = self.get(x, y);
        if particle.active {
            Some(particle.variant)
        } else {
            None
        }
    }

    /// Tells whether the grid has ids enough for `ensure_size(width,
    /// height)`.
    pub fn can_grow(&self, width: usize, height: usize) -> (enough: bool)
        requires
            self.wf(),
        ensures
            enough == (self.spec_last_id() + self.growth(width as nat, height as nat) <= u32::MAX),
    {
        let new_width: usize = if width > self.columns.len() {
            width
        } else {
            self.columns.len()
        };
        let new_height: usize = if height > self.height {
            height
        } else {
            self.height
        };
        proof {
            assert(new_width * new_height <= usize::MAX * usize::MAX) by (nonlinear_arith)
                requires
                    new_width <= usize::MAX,
                    new_height <= usize::MAX,
            ;
            assert(self.columns.len() * self.height <= new_width * new_height)
                by (nonlinear_arith)
                requires
                    self.columns.len() <= new_width,
                    self.height <= new_height,
            ;
            assert(usize::MAX * usize::MAX <= u128::MAX) by (nonlinear_arith)
                requires
                    usize::MAX <= u64::MAX,
            ;
        }
        let area: u128 = new_width as u128 * new_height as u128;
        let held: u128 = self.columns.len() as u128 * self.height as u128;
        area - held <= (u32::MAX - self.last_id) as u128
    }

    /// Extends the grid so that it has at least `width` columns and
    /// `height` rows. No slot is lost or changed. Every new slot holds an
    /// empty placeholder under a fresh id: one above every id handed out
    /// before, and unlike that of any other new slot. The ids are handed out
    /// in the order that `served_before` counts.
    pub fn ensure_size(&mut self, width: usize, height: usize)
        requires
            old(self).wf(),
            old(self).spec_last_id() + old(self).growth(width as nat, height as nat) <= u32::MAX,
        ensures
            final(self).wf(),
            final(self)@ == old(self).grown(width as nat, height as nat),
            final(self).spec_width() == larger(old(self).spec_width(), width as nat),
            final(self).spec_height() == larger(old(self).spec_height(), height as nat),
            final(self).spec_last_id() == old(self).spec_last_id() + old(self).growth(
                width as nat,
                height as nat,
            ),
            forall|x: int, y: int|
                old(self).has(x, y) ==> #[trigger] final(self)@[x][y] == old(self)@[x][y],
            forall|x: int, y: int|
                final(self).added(old(self), x, y) ==> {
                    &&& #[trigger] final(self)@[x][y] == placeholder(final(self)@[x][y].id)
                    &&& old(self).spec_last_id() < final(self)@[x][y].id
                },
            forall|x1: int, y1: int, x2: int, y2: int|
                final(self).added(old(self), x1, y1) && final(self).added(old(self), x2, y2) && (x1
                    != x2 || y1 != y2) ==> (#[trigger] final(self)@[x1][y1]).id != (
                #[trigger] final(self)@[x2][y2]).id,
            distinct_ids(old(self)@) ==> distinct_ids(final(self)@),
            width <= old(self).spec_width() && height <= old(self).spec_height() ==> final(self)@
                == old(self)@,
    {
        let old_width: usize = self.columns.len();
        let old_height: usize = self.height;
        let new_width: usize = if width > old_width {
            width
        } else {
            old_width
        };
        let new_height: usize = if height > old_height {
            height
        } else {
            old_height
        };
        let ghost first_id = self.last_id;
        let ghost taller = new_height - old_height;
        proof {
            assert(old_width * new_height - old_width * old_height == old_width * taller)
                by (nonlinear_arith)
                requires
                    taller == new_height - old_height,
            ;
            assert(old_width * new_height <= new_width * new_height) by (nonlinear_arith)
                requires
                    old_width <= new_width,
            ;
        }
        proof {
            assert forall|i: int| 0 <= i < old_width implies (#[trigger] self.columns[i]).len()
                == old_height by {
                assert(self@[i] == self.columns[i]@);
            }
        }
        let mut x: usize = 0;
        while x < old_width
            invariant
                old(self).wf(),
                x <= old_width,
                old_width == old(self).columns.len(),
                old_height == old(self).height,
                self.columns.len() == old_width,
                self.height == old_height,
                old_height <= new_height,
                taller == new_height - old_height,
                first_id == old(self).last_id,
                first_id + old_width * taller <= u32::MAX,
                self.last_id == first_id + x * taller,
                forall|i: int| 0 <= i < x ==> (#[trigger] self.columns[i]).len() == new_height,
                forall|i: int|
                    x <= i < old_width ==> #[trigger] self.columns[i] == old(self).columns[i],
                forall|i: int|
                    0 <= i < old_width ==> (#[trigger] old(self).columns[i]).len() == old_height,
                forall|i: int|
                    0 <= i < old_width ==> (#[trigger] self.columns[i]).len() >= old_height,
                forall|i: int, j: int|
                    0 <= i < old_width && 0 <= j < old_height ==> (
                    #[trigger] self.columns[i][j]) == old(self).columns[i][j],
                forall|i: int, j: int|
                    0 <= i < x && old_height <= j < new_height ==> {
                        &&& #[trigger] self.columns[i][j] == placeholder(self.columns[i][j].id)
                        &&& first_id < self.columns[i][j].id <= self.last_id
                        &&& self.columns[i][j].id == first_id + i * taller + (j - old_height) + 1
                    },
                forall|i1: int, j1: int, i2: int, j2: int|
                    0 <= i1 < x && old_height <= j1 < new_height && 0 <= i2 < x && old_height
                        <= j2 < new_height && (i1 != i2 || j1 != j2) ==> (
                    #[trigger] self.columns[i1][j1]).id != (#[trigger] self.columns[i2][j2]).id,
            decreases old_width - x,
        {
            proof {
                assert(self@[x as int] == self.columns[x as int]@);
                assert(old(self)@[x as int].len() == old_height);
                assert((x + 1) * taller <= old_width * taller) by (nonlinear_arith)
                    requires
                        x + 1 <= old_width,
                        taller >= 0,
                ;
                assert((x + 1) * taller == x * taller + taller) by (nonlinear_arith);
            }
            let ghost before = self.columns@;
            let ghost last = self.last_id;
            let used: u32 = extend_column(&mut self.columns[x], new_height, self.last_id);
            self.last_id = used;
            proof {
                assert forall|i: int, j: int|
                    0 <= i < x + 1 && old_height <= j < new_height implies {
                    &&& #[trigger] self.columns[i][j] == placeholder(self.columns[i][j].id)
                    &&& first_id < self.columns[i][j].id <= self.last_id
                    &&& self.columns[i][j].id == first_id + i * taller + (j - old_height) + 1
                } by {
                    if i < x {
                        assert(self.columns[i] == before[i]);
                    }
                }
                assert forall|i1: int, j1: int, i2: int, j2: int|
                    0 <= i1 < x + 1 && old_height <= j1 < new_height && 0 <= i2 < x + 1
                        && old_height <= j2 < new_height && (i1 != i2 || j1 != j2) implies (
                #[trigger] self.columns[i1][j1]).id != (#[trigger] self.columns[i2][j2]).id by {
                    if i1 < x {
                        assert(self.columns[i1] == before[i1]);
                        assert(before[i1][j1].id <= last);
                    }
                    if i2 < x {
                        assert(self.columns[i2] == before[i2]);
                        assert(before[i2][j2].id <= last);
                    }
                }
            }
            x = x + 1;
        }
        let ghost middle = self.last_id;
        proof {
            assert(new_width * new_height - old_width * new_height == (new_width - old_width)
                * new_height) by (nonlinear_arith);
            assert((self.columns.len() - old_width) * new_height == 0) by (nonlinear_arith)
                requires
                    self.columns.len() == old_width,
            ;
        }
        while self.columns.len() < new_width
            invariant
                old(self).wf(),
                old_width == old(self).columns.len(),
                old_height == old(self).height,
                old_width <= self.columns.len() <= new_width,
                self.height == old_height,
                old_height <= new_height,
                first_id == old(self).last_id,
                first_id <= middle,
                middle + (new_width - old_width) * new_height <= u32::MAX,
                self.last_id == middle + (self.columns.len() - old_width) * new_height,
                forall|i: int|
                    0 <= i < self.columns.len() ==> (#[trigger] self.columns[i]).len()
                        == new_height,
                forall|i: int|
                    0 <= i < old_width ==> (#[trigger] old(self).columns[i]).len() == old_height,
                forall|i: int|
                    0 <= i < old_width ==> (#[trigger] self.columns[i]).len() >= old_height,
                forall|i: int, j: int|
                    0 <= i < old_width && 0 <= j < old_height ==> (
                    #[trigger] self.columns[i][j]) == old(self).columns[i][j],
                forall|i: int, j: int|
                    0 <= i < self.columns.len() && 0 <= j < new_height && !(i < old_width && j
                        < old_height) ==> {
                        &&& #[trigger] self.columns[i][j] == placeholder(self.columns[i][j].id)
                        &&& first_id < self.columns[i][j].id <= self.last_id
                    },
                taller == new_height - old_height,
                middle == first_id + old_width * taller,
                forall|i: int, j: int|
                    0 <= i < old_width && old_height <= j < new_height ==> (
                    #[trigger] self.columns[i][j]).id == first_id + i * taller + (j - old_height)
                        + 1,
                forall|i: int, j: int|
                    old_width <= i < self.columns.len() && 0 <= j < new_height ==> (
                    #[trigger] self.columns[i][j]).id == middle + (i - old_width) * new_height + j
                        + 1,
                forall|i1: int, j1: int, i2: int, j2: int|
                    0 <= i1 < self.columns.len() && 0 <= j1 < new_height && !(i1 < old_width && j1
                        < old_height) && 0 <= i2 < self.columns.len() && 0 <= j2 < new_height && !(
                    i2 < old_width && j2 < old_height) && (i1 != i2 || j1 != j2) ==> (
                    #[trigger] self.columns[i1][j1]).id != (#[trigger] self.columns[i2][j2]).id,
            decreases new_width - self.columns.len(),
        {
            let ghost filled = self.columns.len();
            proof {
                assert((filled - old_width + 1) * new_height <= (new_width - old_width)
                    * new_height) by (nonlinear_arith)
                    requires
                        filled + 1 <= new_width,
                        filled >= old_width,
                ;
                assert((filled - old_width + 1) * new_height == (filled - old_width) * new_height
                    + new_height) by (nonlinear_arith);
            }
            let ghost before = self.columns@;
            let ghost last = self.last_id;
            let mut column: Vec<Particle> = Vec::new();
            let used: u32 = extend_column(&mut column, new_height, self.last_id);
            self.columns.push(column);
            self.last_id = used;
            proof {
                assert forall|i: int, j: int|
                    0 <= i < self.columns.len() && 0 <= j < new_height && !(i < old_width && j
                        < old_height) implies {
                    &&& #[trigger] self.columns[i][j] == placeholder(self.columns[i][j].id)
                    &&& first_id < self.columns[i][j].id <= self.last_id
                } by {
                    if i < filled {
                        assert(self.columns[i] == before[i]);
                    }
                }
                assert forall|i: int, j: int|
                    0 <= i < old_width && old_height <= j < new_height implies (
                #[trigger] self.columns[i][j]).id == first_id + i * taller + (j - old_height)
                    + 1 by {
                    assert(self.columns[i] == before[i]);
                }
                assert forall|i: int, j: int|
                    old_width <= i < self.columns.len() && 0 <= j < new_height implies (
                #[trigger] self.columns[i][j]).id == middle + (i - old_width) * new_height + j
                    + 1 by {
                    if i < filled {
                        assert(self.columns[i] == before[i]);
                    }
                }
                assert forall|i1: int, j1: int, i2: int, j2: int|
                    0 <= i1 < self.columns.len() && 0 <= j1 < new_height && !(i1 < old_width && j1
                        < old_height) && 0 <= i2 < self.columns.len() && 0 <= j2 < new_height && !(
                    i2 < old_width && j2 < old_height) && (i1 != i2 || j1 != j2) implies (
                #[trigger] self.columns[i1][j1]).id != (#[trigger] self.columns[i2][j2]).id by {
                    if i1 < filled {
                        assert(self.columns[i1] == before[i1]);
                        assert(before[i1][j1].id <= last);
                    }
                    if i2 < filled {
                        assert(self.columns[i2] == before[i2]);
                        assert(before[i2][j2].id <= last);
                    }
                }
            }
        }
        self.height = new_height;
        proof {
            assert(self@.len() == new_width);
            assert forall|i: int| 0 <= i < self@.len() implies (#[trigger] self@[i]).len()
                == new_height by {
                assert(self@[i] == self.columns[i]@);
            }
            assert forall|i: int, j: int| self.has(i, j) implies (#[trigger] self@[i][j]).id
                <= self.last_id by {
                assert(self@[i] == self.columns[i]@);
                if i < old_width && j < old_height {
                    assert(old(self)@[i] == old(self).columns[i]@);
                    assert(old(self)@[i][j].id <= first_id);
                }
            }
            assert forall|i: int, j: int| old(self).has(i, j) implies #[trigger] self@[i][j]
                == old(self)@[i][j] by {
                assert(self@[i] == self.columns[i]@);
                assert(old(self)@[i] == old(self).columns[i]@);
            }
            assert forall|i: int, j: int| self.added(old(self), i, j) implies {
                &&& #[trigger] self@[i][j] == placeholder(self@[i][j].id)
                &&& old(self).spec_last_id() < self@[i][j].id
            } by {
                assert(self@[i] == self.columns[i]@);
            }
            assert forall|i1: int, j1: int, i2: int, j2: int|
                self.added(old(self), i1, j1) && self.added(old(self), i2, j2) && (i1 != i2 || j1
                    != j2) implies (#[trigger] self@[i1][j1]).id != (#[trigger] self@[i2][j2]).id by {
                assert(self@[i1] == self.columns[i1]@);
                assert(self@[i2] == self.columns[i2]@);
            }
            let goal = old(self).grown(width as nat, height as nat);
            assert forall|i: int, j: int| self.has(i, j) implies #[trigger] self@[i][j]
                == goal[i][j] by {
                assert(self@[i] == self.columns[i]@);
                if !old(self).has(i, j) {
                    assert(self.added(old(self), i, j));
                    assert(self@[i][j] == placeholder(self@[i][j].id));
                }
            }
            assert(self@ =~~= goal);
            if distinct_ids(old(self)@) {
                assert forall|i1: int, j1: int, i2: int, j2: int|
                    in_bounds(self@, i1, j1) && in_bounds(self@, i2, j2) && (i1 != i2 || j1
                        != j2) implies (#[trigger] self@[i1][j1]).id != (
                #[trigger] self@[i2][j2]).id by {
                    if old(self).has(i1, j1) {
                        assert(self@[i1][j1] == old(self)@[i1][j1]);
                        assert(old(self)@[i1][j1].id <= first_id);
                    } else {
                        assert(self.added(old(self), i1, j1));
                    }
                    if old(self).has(i2, j2) {
                        assert(self@[i2][j2] == old(self)@[i2][j2]);
                        assert(old(self)@[i2][j2].id <= first_id);
                    } else {
                        assert(self.added(old(self), i2, j2));
                    }
                }
            }
            if width <= old_width && height <= old_height {
                assert(self@ =~~= old(self)@);
            }
        }
    }

    /// Stores `particle` at `(x, y)`. The id counter rises to the stored id
    /// where that is larger, so that ids handed out later stay fresh.
    pub fn set(&mut self, x: usize, y: usize, particle: Particle)
        requires
            old(self).wf(),
            old(self).has(x as int, y as int),
        ensures
            final(self).wf(),
            final(self)@ == put(old(self)@, x as int, y as int, particle),
            final(self).spec_height() == old(self).spec_height(),
            final(self).spec_last_id() == if particle.id > old(self).spec_last_id() {
                particle.id as nat
            } else {
                old(self).spec_last_id()
            },
    {
        proof {
            assert(self@[x as int] == self.columns[x as int]@);
        }
        self.columns[x][y] = particle;
        if particle.id > self.last_id {
            self.last_id = particle.id;
        }
        proof {
            assert(self@ =~= put(old(self)@, x as int, y as int, particle));
        }
    }
}

} // verus!
